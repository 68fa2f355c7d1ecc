//! Execution context for rule evaluation: the data a rule sees.
//!
//! - the input data from the client,
//! - the values computed by rules that already ran (they hide an input of
//!   the same name),
//! - metadata about the execution.
//!
//! Each of them is a list of named values, in the order they were given;
//! setting a name replaces its value, or adds the name at the end.

use vstd::prelude::*;
use crate::json::{json_view, lemma_members_view, members_view, Json, SpecJson};
use crate::json_logic::ast::split_dots;
use crate::json_logic::config::{parse_unsigned, parsed_unsigned};
use crate::engine::dag::strings_view;
use crate::text::{chars_equal, str_chars, string_from_chars};

verus! {

// ---------------------------------------------------------------------------
// Named values
// ---------------------------------------------------------------------------

/// The index of the first entry named `key` at or after `k` (the number of
/// entries when there is none).
pub open spec fn key_index(es: Seq<(Seq<char>, SpecJson)>, key: Seq<char>, k: int) -> int
    decreases es.len() - k,
{
    if k < 0 || k >= es.len() {
        es.len() as int
    } else if es[k].0 == key {
        k
    } else {
        key_index(es, key, k + 1)
    }
}

/// The value of the entry named `key`, if there is one.
pub open spec fn lookup(es: Seq<(Seq<char>, SpecJson)>, key: Seq<char>) -> Option<SpecJson> {
    let i = key_index(es, key, 0);
    if 0 <= i < es.len() {
        Some(es[i].1)
    } else {
        None
    }
}

/// The entries with `key` set to `v`: the entry named `key` takes the new
/// value, or a new entry is added at the end.
pub open spec fn assign(es: Seq<(Seq<char>, SpecJson)>, key: Seq<char>, v: SpecJson) -> Seq<(Seq<char>, SpecJson)> {
    let i = key_index(es, key, 0);
    if 0 <= i < es.len() {
        es.update(i, (key, v))
    } else {
        es.push((key, v))
    }
}

/// The entries with the first `k` of `news` set in turn.
pub open spec fn assign_all(es: Seq<(Seq<char>, SpecJson)>, news: Seq<(Seq<char>, SpecJson)>, k: int) -> Seq<
    (Seq<char>, SpecJson),
>
    decreases k,
{
    if k <= 0 {
        es
    } else {
        assign(assign_all(es, news, k - 1), news[k - 1].0, news[k - 1].1)
    }
}

pub proof fn lemma_key_index(es: Seq<(Seq<char>, SpecJson)>, key: Seq<char>, k: int)
    requires
        0 <= k <= es.len(),
    ensures
        k <= key_index(es, key, k) <= es.len(),
        key_index(es, key, k) < es.len() ==> es[key_index(es, key, k)].0 == key,
        forall|j: int| k <= j < key_index(es, key, k) ==> es[j].0 != key,
    decreases es.len() - k,
{
    if k < es.len() && es[k].0 != key {
        lemma_key_index(es, key, k + 1);
    }
}

/// After setting `key`, it has the new value; the other names keep theirs.
pub proof fn lemma_assign_lookup(es: Seq<(Seq<char>, SpecJson)>, key: Seq<char>, v: SpecJson, other: Seq<char>)
    ensures
        lookup(assign(es, key, v), key) == Some(v),
        other != key ==> lookup(assign(es, key, v), other) == lookup(es, other),
{
    lemma_key_index(es, key, 0);
    lemma_key_index(es, other, 0);
    let a = assign(es, key, v);
    lemma_key_index(a, key, 0);
    lemma_key_index(a, other, 0);
    let i = key_index(es, key, 0);
    let ia = key_index(a, key, 0);
    assert(a[i].0 == key);
    if ia < i {
        assert(a[ia] == es[ia]);
        assert(es[ia].0 != key);
    }
    if ia > i {
        assert(a[i].0 != key);
    }
    assert(ia == i);
    if other != key {
        let j = key_index(es, other, 0);
        let ja = key_index(a, other, 0);
        if ja < j {
            assert(a[ja].0 == other);
            assert(ja != i);
            assert(a[ja] == es[ja]);
            assert(es[ja].0 != other);
        }
        if j < ja {
            if j < es.len() {
                assert(j != i);
                assert(a[j] == es[j]);
                assert(a[j].0 != other);
            } else {
                assert(j == es.len());
                if i < es.len() {
                    assert(a.len() == es.len());
                } else {
                    assert(a[j].0 == key);
                    assert(a[j].0 != other);
                }
            }
        }
        if j < es.len() {
            assert(ja == j);
            assert(j != i);
            assert(a[j] == es[j]);
        } else if ja < a.len() {
            assert(ja == j);
            assert(a[j].0 == key);
        }
    }
}

/// The position of the first entry named `key`, if any.
fn position(es: &Vec<(String, Json)>, key: &[char]) -> (r: Option<usize>)
    ensures
        match r {
            Some(i) => i < es@.len() && i == key_index(members_view(es@), key@, 0),
            None => key_index(members_view(es@), key@, 0) == es@.len(),
        },
{
    let ghost mv = members_view(es@);
    proof {
        lemma_members_view(es@);
    }
    let mut i: usize = 0;
    while i < es.len()
        invariant
            0 <= i <= es@.len(),
            mv == members_view(es@),
            mv.len() == es@.len(),
            forall|j: int| 0 <= j < es@.len() ==> #[trigger] mv[j] == (es@[j].0@, json_view(es@[j].1)),
            key_index(mv, key@, 0) == key_index(mv, key@, i as int),
        decreases es@.len() - i,
    {
        let k = str_chars(es[i].0.as_str());
        if chars_equal(k.as_slice(), key) {
            assert(mv[i as int].0 == key@);
            return Some(i);
        }
        assert(mv[i as int].0 != key@);
        i = i + 1;
    }
    None
}

/// Sets `key` to `v` in the entries.
pub(crate) fn assign_entry(es: &mut Vec<(String, Json)>, key: String, v: Json)
    ensures
        members_view(final(es)@) == assign(members_view(old(es)@), key@, v@),
{
    let ghost before = es@;
    let ghost kv = key@;
    let ghost vv = v@;
    proof {
        lemma_members_view(before);
    }
    let kc = str_chars(key.as_str());
    match position(es, kc.as_slice()) {
        Some(i) => {
            es.set(i, (key, v));
            proof {
                lemma_members_view(es@);
                assert(members_view(es@) =~= members_view(before).update(i as int, (kv, vv)));
            }
        },
        None => {
            es.push((key, v));
            proof {
                lemma_members_view(es@);
                assert(members_view(es@) =~= members_view(before).push((kv, vv)));
            }
        },
    }
}

/// The value of the entry named `key`, if there is one.
pub(crate) fn find<'a>(es: &'a Vec<(String, Json)>, key: &str) -> (r: Option<&'a Json>)
    ensures
        match r {
            Some(v) => lookup(members_view(es@), key@) == Some(v@),
            None => lookup(members_view(es@), key@) is None,
        },
{
    proof {
        lemma_members_view(es@);
    }
    let kc = str_chars(key);
    match position(es, kc.as_slice()) {
        Some(i) => Some(&es[i].1),
        None => None,
    }
}

/// A deep copy of the entries.
fn copy_entries(es: &Vec<(String, Json)>) -> (r: Vec<(String, Json)>)
    ensures
        members_view(r@) == members_view(es@),
{
    let mut r: Vec<(String, Json)> = Vec::new();
    let mut i: usize = 0;
    while i < es.len()
        invariant
            0 <= i <= es@.len(),
            r@.len() == i,
            forall|j: int| 0 <= j < i ==> (#[trigger] r@[j]).0@ == es@[j].0@ && r@[j].1@ == es@[j].1@,
        decreases es@.len() - i,
    {
        r.push((es[i].0.clone(), es[i].1.duplicate()));
        i = i + 1;
    }
    proof {
        lemma_members_view(r@);
        lemma_members_view(es@);
        assert(members_view(r@) =~= members_view(es@));
    }
    r
}

// ---------------------------------------------------------------------------
// The context
// ---------------------------------------------------------------------------

/// Model of an [`ExecutionContext`].
pub struct SpecExecutionContext {
    pub input: Seq<(Seq<char>, SpecJson)>,
    pub computed: Seq<(Seq<char>, SpecJson)>,
    pub metadata: Seq<(Seq<char>, SpecJson)>,
}

/// The execution context holds all data available during rule evaluation
#[derive(Debug)]
pub struct ExecutionContext {
    /// Input data provided by the client
    input: Vec<(String, Json)>,
    /// Computed values from executed rules
    computed: Vec<(String, Json)>,
    /// Metadata about the execution
    metadata: Vec<(String, Json)>,
}

impl View for ExecutionContext {
    type V = SpecExecutionContext;

    closed spec fn view(&self) -> SpecExecutionContext {
        SpecExecutionContext {
            input: members_view(self.input@),
            computed: members_view(self.computed@),
            metadata: members_view(self.metadata@),
        }
    }
}

/// The value a rule sees for `key`: the computed one, else the input.
pub open spec fn context_value(c: SpecExecutionContext, key: Seq<char>) -> Option<SpecJson> {
    match lookup(c.computed, key) {
        Some(v) => Some(v),
        None => lookup(c.input, key),
    }
}

impl ExecutionContext {
    /// Create a new execution context with input data
    pub fn new(input: Vec<(String, Json)>) -> (c: Self)
        ensures
            c@ == (SpecExecutionContext { input: members_view(input@), computed: Seq::empty(), metadata: Seq::empty() }),
    {
        let c = ExecutionContext { input, computed: Vec::new(), metadata: Vec::new() };
        proof {
            lemma_members_view(c.computed@);
            lemma_members_view(c.metadata@);
        }
        assert(c@.computed =~= Seq::<(Seq<char>, SpecJson)>::empty());
        assert(c@.metadata =~= Seq::<(Seq<char>, SpecJson)>::empty());
        c
    }

    /// Create from a JSON value: the members of an object are the inputs;
    /// any other value gives no input.
    pub fn from_json(json: &Json) -> (c: Self)
        ensures
            c@ == (SpecExecutionContext {
                input: match json@ {
                    SpecJson::Object(m) => m,
                    _ => Seq::empty(),
                },
                computed: Seq::empty(),
                metadata: Seq::empty(),
            }),
    {
        match json {
            Json::Object(m) => ExecutionContext::new(copy_entries(m)),
            _ => {
                let c = ExecutionContext::new(Vec::new());
                proof {
                    lemma_members_view(Seq::<(String, Json)>::empty());
                }
                assert(c@.input =~= Seq::<(Seq<char>, SpecJson)>::empty());
                c
            },
        }
    }

    /// A copy of the context.
    pub fn duplicate(&self) -> (c: Self)
        ensures
            c@ == self@,
    {
        ExecutionContext {
            input: copy_entries(&self.input),
            computed: copy_entries(&self.computed),
            metadata: copy_entries(&self.metadata),
        }
    }

    /// Get a value from the context (checks computed first, then input)
    pub fn get(&self, key: &str) -> (r: Option<&Json>)
        ensures
            match r {
                Some(v) => context_value(self@, key@) == Some(v@),
                None => context_value(self@, key@) is None,
            },
    {
        match find(&self.computed, key) {
            Some(v) => Some(v),
            None => find(&self.input, key),
        }
    }

    /// Set a computed value
    pub fn set(&mut self, key: &str, value: Json)
        ensures
            final(self)@ == (SpecExecutionContext { computed: assign(old(self)@.computed, key@, value@), ..old(self)@ }),
    {
        assign_entry(&mut self.computed, key.to_owned(), value);
    }

    /// Set metadata
    pub fn set_metadata(&mut self, key: &str, value: Json)
        ensures
            final(self)@ == (SpecExecutionContext { metadata: assign(old(self)@.metadata, key@, value@), ..old(self)@ }),
    {
        assign_entry(&mut self.metadata, key.to_owned(), value);
    }

    /// Get metadata
    pub fn get_metadata(&self, key: &str) -> (r: Option<&Json>)
        ensures
            match r {
                Some(v) => lookup(self@.metadata, key@) == Some(v@),
                None => lookup(self@.metadata, key@) is None,
            },
    {
        find(&self.metadata, key)
    }

    /// Get all computed values
    pub fn computed_values(&self) -> (r: &Vec<(String, Json)>)
        ensures
            members_view(r@) == self@.computed,
    {
        &self.computed
    }

    /// Get all input values
    pub fn input_values(&self) -> (r: &Vec<(String, Json)>)
        ensures
            members_view(r@) == self@.input,
    {
        &self.input
    }

    /// Merge another context into this one: its computed values are set
    /// here, in turn.
    pub fn merge(&mut self, other: &ExecutionContext)
        ensures
            final(self)@ == (SpecExecutionContext {
                computed: assign_all(old(self)@.computed, other@.computed, other@.computed.len() as int),
                ..old(self)@
            }),
    {
        let ghost start = self@;
        let ghost news = other@.computed;
        proof {
            lemma_members_view(other.computed@);
        }
        let mut i: usize = 0;
        while i < other.computed.len()
            invariant
                0 <= i <= other.computed@.len(),
                news == members_view(other.computed@),
                news.len() == other.computed@.len(),
                forall|j: int|
                    0 <= j < other.computed@.len() ==> #[trigger] news[j] == (
                        other.computed@[j].0@,
                        json_view(other.computed@[j].1),
                    ),
                self@ == (SpecExecutionContext { computed: assign_all(start.computed, news, i as int), ..start }),
            decreases other.computed@.len() - i,
        {
            let (k, v) = &other.computed[i];
            assign_entry(&mut self.computed, k.clone(), v.duplicate());
            assert(news[i as int] == (k@, v@));
            i = i + 1;
        }
    }

    /// Check if a key exists in the context
    pub fn contains(&self, key: &str) -> (r: bool)
        ensures
            r == (context_value(self@, key@) is Some),
    {
        find(&self.computed, key).is_some() || find(&self.input, key).is_some()
    }
}

impl Default for ExecutionContext {
    fn default() -> (c: Self)
        ensures
            c@ == (SpecExecutionContext { input: Seq::empty(), computed: Seq::empty(), metadata: Seq::empty() }),
    {
        let c = ExecutionContext::new(Vec::new());
        proof {
            lemma_members_view(Seq::<(String, Json)>::empty());
        }
        assert(c@.input =~= Seq::<(Seq<char>, SpecJson)>::empty());
        c
    }
}

// ---------------------------------------------------------------------------
// Dotted paths
// ---------------------------------------------------------------------------

pub open spec fn pieces_view(v: Seq<Vec<char>>) -> Seq<Seq<char>> {
    v.map_values(|p: Vec<char>| p@)
}

/// A path has at least one segment.
pub proof fn lemma_split_dots_len(s: Seq<char>)
    ensures
        split_dots(s).len() >= 1,
    decreases s.len(),
{
    if s.len() > 0 {
        lemma_split_dots_len(s.drop_last());
    }
}

/// The segments of a dotted path (`str::split('.')`).
pub(crate) fn split_path(s: &str) -> (r: Vec<Vec<char>>)
    ensures
        pieces_view(r@) == split_dots(s@),
        r@.len() >= 1,
{
    let cs = str_chars(s);
    let mut out: Vec<Vec<char>> = Vec::new();
    let mut cur: Vec<char> = Vec::new();
    let mut i: usize = 0;
    assert(cs@.subrange(0, 0) =~= Seq::<char>::empty());
    assert(pieces_view(out@).push(cur@) =~= seq![Seq::<char>::empty()]);
    while i < cs.len()
        invariant
            0 <= i <= cs@.len(),
            cs@ == s@,
            pieces_view(out@).push(cur@) == split_dots(cs@.subrange(0, i as int)),
        decreases cs@.len() - i,
    {
        let c = cs[i];
        let ghost prefix = cs@.subrange(0, i + 1);
        assert(prefix.drop_last() =~= cs@.subrange(0, i as int));
        assert(prefix.last() == c);
        let ghost prev = pieces_view(out@).push(cur@);
        if c == '.' {
            out.push(cur);
            cur = Vec::new();
            assert(pieces_view(out@).push(cur@) =~= prev.push(seq![]));
        } else {
            cur.push(c);
            assert(pieces_view(out@).push(cur@) =~= prev.update(prev.len() - 1, prev.last().push(c)));
        }
        i = i + 1;
    }
    let ghost before = pieces_view(out@);
    out.push(cur);
    assert(cs@.subrange(0, cs@.len() as int) =~= cs@);
    assert(pieces_view(out@) =~= before.push(cur@));
    out
}

/// The value reached from `v` by following the segments: a member of an
/// object by its name, an element of an array by its index.
pub open spec fn navigate(v: SpecJson, segs: Seq<Seq<char>>) -> Option<SpecJson>
    decreases segs.len(),
{
    if segs.len() == 0 {
        Some(v)
    } else {
        match v {
            SpecJson::Object(m) => match lookup(m, segs[0]) {
                Some(x) => navigate(x, segs.drop_first()),
                None => None,
            },
            SpecJson::Array(a) => match parsed_unsigned(segs[0], usize::MAX as nat) {
                Some(i) => if i < a.len() {
                    navigate(a[i as int], segs.drop_first())
                } else {
                    None
                },
                None => None,
            },
            _ => None,
        }
    }
}

/// The value at a dotted path: the whole context as an object for the
/// empty path, else the value of the first segment followed through the
/// others.
pub open spec fn path_value(c: SpecExecutionContext, path: Seq<char>) -> Option<SpecJson> {
    if path.len() == 0 {
        Some(SpecJson::Object(assign_all(assign_all(Seq::empty(), c.input, c.input.len() as int), c.computed, c.computed.len() as int)))
    } else {
        let segs = split_dots(path);
        match context_value(c, segs[0]) {
            Some(v) => navigate(v, segs.drop_first()),
            None => None,
        }
    }
}

/// Follows the segments from index `k` on, starting at `v`.
pub(crate) fn follow(v: Json, segs: &Vec<Vec<char>>, k: usize) -> (r: Option<Json>)
    requires
        k <= segs@.len(),
    ensures
        match r {
            Some(x) => navigate(v@, pieces_view(segs@).subrange(k as int, segs@.len() as int)) == Some(x@),
            None => navigate(v@, pieces_view(segs@).subrange(k as int, segs@.len() as int)) is None,
        },
    decreases segs@.len() - k,
{
    let ghost rest = pieces_view(segs@).subrange(k as int, segs@.len() as int);
    if k == segs.len() {
        return Some(v);
    }
    assert(rest[0] == segs@[k as int]@);
    assert(rest.drop_first() =~= pieces_view(segs@).subrange(k + 1, segs@.len() as int));
    match v {
        Json::Object(m) => {
            let name = string_from_chars(segs[k].as_slice());
            let found = find(&m, name.as_str());
            match found {
                Some(x) => {
                    let next = x.duplicate();
                    follow(next, segs, k + 1)
                },
                None => None,
            }
        },
        Json::Array(a) => {
            let text = string_from_chars(segs[k].as_slice());
            match parse_unsigned(text.as_str(), usize::MAX as u64) {
                Some(i) => {
                    proof {
                        crate::json::lemma_jsons_view(a@);
                    }
                    if i < a.len() as u64 {
                        let next = a[i as usize].duplicate();
                        follow(next, segs, k + 1)
                    } else {
                        None
                    }
                },
                None => None,
            }
        },
        _ => None,
    }
}

impl ExecutionContext {
    /// Get a nested value using dot notation
    pub fn get_path(&self, path: &str) -> (r: Option<Json>)
        ensures
            match r {
                Some(x) => path_value(self@, path@) == Some(x@),
                None => path_value(self@, path@) is None,
            },
    {
        let path_chars = str_chars(path);
        if path_chars.len() == 0 {
            proof {
                lemma_members_view(self.input@);
                lemma_members_view(self.computed@);
            }
            let mut all: Vec<(String, Json)> = Vec::new();
            proof {
                lemma_members_view(all@);
                assert(members_view(all@) =~= Seq::<(Seq<char>, SpecJson)>::empty());
            }
            let ghost iv = self@.input;
            let ghost cv = self@.computed;
            let mut i: usize = 0;
            while i < self.input.len()
                invariant
                    0 <= i <= self.input@.len(),
                    iv == members_view(self.input@),
                    iv.len() == self.input@.len(),
                    forall|j: int| 0 <= j < self.input@.len() ==> #[trigger] iv[j] == (self.input@[j].0@, json_view(self.input@[j].1)),
                    members_view(all@) == assign_all(Seq::empty(), iv, i as int),
                decreases self.input@.len() - i,
            {
                assert(iv[i as int] == (self.input@[i as int].0@, self.input@[i as int].1@));
                assign_entry(&mut all, self.input[i].0.clone(), self.input[i].1.duplicate());
                i = i + 1;
            }
            let ghost base = members_view(all@);
            let mut i: usize = 0;
            while i < self.computed.len()
                invariant
                    0 <= i <= self.computed@.len(),
                    cv == members_view(self.computed@),
                    cv.len() == self.computed@.len(),
                    forall|j: int| 0 <= j < self.computed@.len() ==> #[trigger] cv[j] == (self.computed@[j].0@, json_view(self.computed@[j].1)),
                    members_view(all@) == assign_all(base, cv, i as int),
                decreases self.computed@.len() - i,
            {
                assert(cv[i as int] == (self.computed@[i as int].0@, self.computed@[i as int].1@));
                assign_entry(&mut all, self.computed[i].0.clone(), self.computed[i].1.duplicate());
                i = i + 1;
            }
            return Some(Json::Object(all));
        }
        proof {
            assert(path@.len() > 0);
        }
        let segs = split_path(path);
        let first = string_from_chars(segs[0].as_slice());
        assert(pieces_view(segs@)[0] == segs@[0]@);
        match self.get(first.as_str()) {
            Some(v) => {
                let start = v.duplicate();
                assert(pieces_view(segs@).subrange(1, segs@.len() as int) =~= split_dots(path@).drop_first());
                follow(start, &segs, 1)
            },
            None => None,
        }
    }
}

// ---------------------------------------------------------------------------
// The context as one nested value
// ---------------------------------------------------------------------------

/// The entries with `v` put at the path `segs`: a single segment names an
/// entry that is set; otherwise the value goes inside the object named by
/// the first segment, which is made (empty) when it is missing, and the
/// value is dropped when that name holds something other than an object.
pub open spec fn insert_at(es: Seq<(Seq<char>, SpecJson)>, segs: Seq<Seq<char>>, v: SpecJson) -> Seq<
    (Seq<char>, SpecJson),
>
    decreases segs.len(),
{
    if segs.len() <= 1 {
        assign(es, if segs.len() == 1 { segs[0] } else { Seq::empty() }, v)
    } else {
        let i = key_index(es, segs[0], 0);
        if 0 <= i < es.len() {
            match es[i].1 {
                SpecJson::Object(m) => es.update(i, (segs[0], SpecJson::Object(insert_at(m, segs.drop_first(), v)))),
                _ => es,
            }
        } else {
            es.push((segs[0], SpecJson::Object(insert_at(Seq::empty(), segs.drop_first(), v))))
        }
    }
}

/// The entries with the first `k` of `news` put at their dotted paths, in
/// turn.
pub open spec fn insert_all(es: Seq<(Seq<char>, SpecJson)>, news: Seq<(Seq<char>, SpecJson)>, k: int) -> Seq<
    (Seq<char>, SpecJson),
>
    decreases k,
{
    if k <= 0 {
        es
    } else {
        insert_at(insert_all(es, news, k - 1), split_dots(news[k - 1].0), news[k - 1].1)
    }
}

/// The members of the context as one nested object: the inputs, then the
/// computed values, each put at its dotted path.
pub open spec fn nested_members(c: SpecExecutionContext) -> Seq<(Seq<char>, SpecJson)> {
    insert_all(insert_all(Seq::empty(), c.input, c.input.len() as int), c.computed, c.computed.len() as int)
}

/// Puts `v` at the path made of the segments from index `k` on.
fn insert_at_path(es: Vec<(String, Json)>, segs: &Vec<Vec<char>>, k: usize, v: Json) -> (r: Vec<(String, Json)>)
    requires
        k < segs@.len(),
    ensures
        members_view(r@) == insert_at(members_view(es@), pieces_view(segs@).subrange(k as int, segs@.len() as int), v@),
    decreases segs@.len() - k,
{
    let ghost rest = pieces_view(segs@).subrange(k as int, segs@.len() as int);
    let ghost before = es@;
    assert(rest[0] == segs@[k as int]@);
    let mut es = es;
    if k == segs.len() - 1 {
        let key = string_from_chars(segs[k].as_slice());
        assign_entry(&mut es, key, v);
        return es;
    }
    assert(rest.drop_first() =~= pieces_view(segs@).subrange(k + 1, segs@.len() as int));
    proof {
        lemma_members_view(before);
    }
    match position(&es, segs[k].as_slice()) {
        Some(i) => {
            let (name, old) = es.remove(i);
            assert(members_view(before)[i as int] == (name@, old@));
            match old {
                Json::Object(m) => {
                    let ghost nv = name@;
                    proof {
                        lemma_key_index(members_view(before), rest[0], 0);
                    }
                    let nm = insert_at_path(m, segs, k + 1, v);
                    es.insert(i, (name, Json::Object(nm)));
                    proof {
                        assert(es@ =~= before.update(i as int, es@[i as int]));
                        lemma_members_view(es@);
                        assert(members_view(es@) =~= members_view(before).update(
                            i as int,
                            (rest[0], SpecJson::Object(members_view(nm@))),
                        ));
                    }
                    es
                },
                other => {
                    es.insert(i, (name, other));
                    assert(es@ =~= before);
                    es
                },
            }
        },
        None => {
            let nm = insert_at_path(Vec::new(), segs, k + 1, v);
            let key = string_from_chars(segs[k].as_slice());
            let ghost kv = key@;
            proof {
                lemma_members_view(Seq::<(String, Json)>::empty());
                assert(members_view(Seq::<(String, Json)>::empty()) =~= Seq::<(Seq<char>, SpecJson)>::empty());
            }
            es.push((key, Json::Object(nm)));
            proof {
                lemma_members_view(es@);
                assert(members_view(es@) =~= members_view(before).push((kv, SpecJson::Object(members_view(nm@)))));
            }
            es
        },
    }
}

/// Puts each of the entries at its dotted path, in turn.
fn insert_entries(root: Vec<(String, Json)>, entries: &Vec<(String, Json)>) -> (r: Vec<(String, Json)>)
    ensures
        members_view(r@) == insert_all(members_view(root@), members_view(entries@), entries@.len() as int),
{
    let ghost base = members_view(root@);
    let ghost ev = members_view(entries@);
    proof {
        lemma_members_view(entries@);
    }
    let mut root = root;
    let mut i: usize = 0;
    while i < entries.len()
        invariant
            0 <= i <= entries@.len(),
            ev == members_view(entries@),
            ev.len() == entries@.len(),
            forall|j: int| 0 <= j < entries@.len() ==> #[trigger] ev[j] == (entries@[j].0@, json_view(entries@[j].1)),
            members_view(root@) == insert_all(base, ev, i as int),
        decreases entries@.len() - i,
    {
        let (k, v) = &entries[i];
        assert(ev[i as int] == (k@, v@));
        let segs = split_path(k.as_str());
        root = insert_at_path(root, &segs, 0, v.duplicate());
        assert(pieces_view(segs@).subrange(0, segs@.len() as int) =~= split_dots(k@));
        i = i + 1;
    }
    root
}

impl ExecutionContext {
    /// The context as one value: an object with the inputs and then the
    /// computed values put at their dotted paths, so that "loan.main.rate"
    /// lands in the object "loan", in its object "main".
    pub fn to_value(&self) -> (r: Json)
        ensures
            r@ == SpecJson::Object(nested_members(self@)),
    {
        let root: Vec<(String, Json)> = Vec::new();
        proof {
            lemma_members_view(root@);
            assert(members_view(root@) =~= Seq::<(Seq<char>, SpecJson)>::empty());
        }
        proof {
            lemma_members_view(self.input@);
            lemma_members_view(self.computed@);
        }
        let root = insert_entries(root, &self.input);
        let root = insert_entries(root, &self.computed);
        assert(members_view(root@) == nested_members(self@));
        let r = Json::Object(root);
        assert(r@ == SpecJson::Object(members_view(root@)));
        r
    }
}

// ---------------------------------------------------------------------------
// Names
// ---------------------------------------------------------------------------

/// The names of the entries.
pub open spec fn entry_names(es: Seq<(Seq<char>, SpecJson)>) -> Seq<Seq<char>> {
    es.map_values(|e: (Seq<char>, SpecJson)| e.0)
}

/// The names among the first `k` computed values that no input has.
pub open spec fn new_names(input: Seq<(Seq<char>, SpecJson)>, computed: Seq<(Seq<char>, SpecJson)>, k: int) -> Seq<
    Seq<char>,
>
    decreases k,
{
    if k <= 0 {
        Seq::empty()
    } else {
        new_names(input, computed, k - 1) + if lookup(input, computed[k - 1].0) is None {
            seq![computed[k - 1].0]
        } else {
            Seq::empty()
        }
    }
}

/// The names a rule can read: those of the inputs, then those computed
/// that no input has.
pub open spec fn context_keys(c: SpecExecutionContext) -> Seq<Seq<char>> {
    entry_names(c.input) + new_names(c.input, c.computed, c.computed.len() as int)
}

/// The first `k` names without repetition, each where it first occurs.
pub open spec fn distinct_names(names: Seq<Seq<char>>, k: int) -> Seq<Seq<char>>
    decreases k,
{
    if k <= 0 {
        Seq::empty()
    } else {
        let prev = distinct_names(names, k - 1);
        if prev.contains(names[k - 1]) {
            prev
        } else {
            prev.push(names[k - 1])
        }
    }
}

/// An entry is found by a name exactly when one of the entries has it.
pub proof fn lemma_lookup_some(es: Seq<(Seq<char>, SpecJson)>, name: Seq<char>)
    ensures
        lookup(es, name) is Some <==> entry_names(es).contains(name),
{
    lemma_key_index(es, name, 0);
    let i = key_index(es, name, 0);
    if i < es.len() {
        assert(entry_names(es)[i] == name);
    }
    if entry_names(es).contains(name) {
        let j = choose|j: int| 0 <= j < entry_names(es).len() && #[trigger] entry_names(es)[j] == name;
        assert(es[j].0 == name);
    }
}

/// A sequence with one more element holds what it held, and that element.
pub proof fn lemma_push_contains(s: Seq<Seq<char>>, x: Seq<char>, n: Seq<char>)
    ensures
        s.push(x).contains(n) <==> (s.contains(n) || x == n),
{
    if s.contains(n) {
        let q = choose|q: int| 0 <= q < s.len() && #[trigger] s[q] == n;
        assert(s.push(x)[q] == n);
    }
    if x == n {
        assert(s.push(x)[s.len() as int] == n);
    }
    if s.push(x).contains(n) {
        let q = choose|q: int| 0 <= q < s.push(x).len() && #[trigger] s.push(x)[q] == n;
        if q < s.len() {
            assert(s[q] == n);
        }
    }
}

/// The distinct names hold each name once, and exactly the names met.
pub proof fn lemma_distinct_names(names: Seq<Seq<char>>, k: int)
    requires
        0 <= k <= names.len(),
    ensures
        forall|n: Seq<char>| #[trigger] distinct_names(names, k).contains(n) <==> names.subrange(0, k).contains(n),
        forall|a: int, b: int|
            0 <= a < b < distinct_names(names, k).len() ==> distinct_names(names, k)[a] != distinct_names(names, k)[b],
    decreases k,
{
    if k == 0 {
        assert forall|n: Seq<char>| #[trigger] distinct_names(names, k).contains(n) <==> names.subrange(0, k).contains(n) by {
            assert(names.subrange(0, 0).len() == 0);
        }
    } else {
        lemma_distinct_names(names, k - 1);
        let prev = distinct_names(names, k - 1);
        let cur = distinct_names(names, k);
        let x = names[k - 1];
        assert(names.subrange(0, k) =~= names.subrange(0, k - 1).push(x));
        assert forall|n: Seq<char>| #[trigger] distinct_names(names, k).contains(n) <==> names.subrange(0, k).contains(n) by {
            assert(prev.contains(n) <==> names.subrange(0, k - 1).contains(n));
            lemma_push_contains(names.subrange(0, k - 1), x, n);
            lemma_push_contains(prev, x, n);
            if prev.contains(x) && x == n {
                assert(prev.contains(n));
            }
        }
        assert forall|a: int, b: int| 0 <= a < b < cur.len() implies cur[a] != cur[b] by {
            if !prev.contains(x) && b == prev.len() {
                assert(cur[a] == prev[a]);
                assert(cur[b] == x);
            } else {
                assert(cur[a] == prev[a]);
                assert(cur[b] == prev[b]);
            }
        }
    }
}

/// Adds `name` at the end, unless it is there already.
fn push_distinct(r: &mut Vec<String>, name: &String)
    ensures
        strings_view(final(r)@) == if strings_view(old(r)@).contains(name@) {
            strings_view(old(r)@)
        } else {
            strings_view(old(r)@).push(name@)
        },
{
    let ghost prev = strings_view(r@);
    let nc_chars = str_chars(name.as_str());
    let mut j: usize = 0;
    while j < r.len()
        invariant
            0 <= j <= r@.len(),
            prev == strings_view(r@),
            nc_chars@ == name@,
            forall|q: int| 0 <= q < j ==> prev[q] != name@,
        decreases r@.len() - j,
    {
        let rc = str_chars(r[j].as_str());
        assert(prev[j as int] == r@[j as int]@);
        if chars_equal(rc.as_slice(), nc_chars.as_slice()) {
            assert(prev.contains(name@));
            return;
        }
        j = j + 1;
    }
    r.push(name.clone());
    assert(strings_view(r@) =~= prev.push(name@));
}

impl ExecutionContext {
    /// Get the list of all available keys: the inputs', then the computed
    /// values' that no input has.
    pub fn keys(&self) -> (r: Vec<&str>)
        ensures
            r@.map_values(|s: &str| s@) == context_keys(self@),
    {
        let ghost iv = self@.input;
        let ghost cv = self@.computed;
        proof {
            lemma_members_view(self.input@);
            lemma_members_view(self.computed@);
        }
        let mut r: Vec<&str> = Vec::new();
        let mut i: usize = 0;
        while i < self.input.len()
            invariant
                0 <= i <= self.input@.len(),
                iv == members_view(self.input@),
                iv.len() == self.input@.len(),
                forall|j: int| 0 <= j < self.input@.len() ==> #[trigger] iv[j] == (self.input@[j].0@, json_view(self.input@[j].1)),
                r@.map_values(|s: &str| s@) == entry_names(iv).subrange(0, i as int),
            decreases self.input@.len() - i,
        {
            let ghost before = r@.map_values(|s: &str| s@);
            r.push(self.input[i].0.as_str());
            assert(r@.map_values(|s: &str| s@) =~= before.push(self.input@[i as int].0@));
            assert(iv[i as int].0 == self.input@[i as int].0@);
            assert(entry_names(iv).subrange(0, i + 1) =~= entry_names(iv).subrange(0, i as int).push(entry_names(iv)[i as int]));
            i = i + 1;
        }
        assert(entry_names(iv).subrange(0, iv.len() as int) =~= entry_names(iv));
        let mut k: usize = 0;
        while k < self.computed.len()
            invariant
                0 <= k <= self.computed@.len(),
                iv == members_view(self.input@),
                cv == members_view(self.computed@),
                cv.len() == self.computed@.len(),
                forall|j: int| 0 <= j < self.computed@.len() ==> #[trigger] cv[j] == (self.computed@[j].0@, json_view(self.computed@[j].1)),
                r@.map_values(|s: &str| s@) == entry_names(iv) + new_names(iv, cv, k as int),
            decreases self.computed@.len() - k,
        {
            let ghost before = r@.map_values(|s: &str| s@);
            let name = self.computed[k].0.as_str();
            assert(cv[k as int].0 == name@);
            if find(&self.input, name).is_none() {
                r.push(name);
                assert(r@.map_values(|s: &str| s@) =~= before.push(name@));
            }
            k = k + 1;
            assert(r@.map_values(|s: &str| s@) =~= entry_names(iv) + new_names(iv, cv, k as int));
        }
        r
    }

    /// Get all available names, each once: the inputs' and the computed
    /// values'.
    pub fn available_inputs(&self) -> (r: Vec<String>)
        ensures
            strings_view(r@) == distinct_names(
                entry_names(self@.input) + entry_names(self@.computed),
                (self@.input.len() + self@.computed.len()) as int,
            ),
            forall|n: Seq<char>| #[trigger] strings_view(r@).contains(n) <==> (context_value(self@, n) is Some),
            forall|a: int, b: int| 0 <= a < b < r@.len() ==> r@[a]@ != r@[b]@,
    {
        let ghost names = entry_names(self@.input) + entry_names(self@.computed);
        let ghost ni = self.input@.len() as int;
        let ghost nc = self.computed@.len() as int;
        proof {
            lemma_members_view(self.input@);
            lemma_members_view(self.computed@);
        }
        let mut r: Vec<String> = Vec::new();
        assert(strings_view(r@) =~= distinct_names(names, 0));
        let mut i: usize = 0;
        while i < self.input.len()
            invariant
                0 <= i <= self.input@.len(),
                ni == self.input@.len(),
                nc == self.computed@.len(),
                names == entry_names(self@.input) + entry_names(self@.computed),
                names.len() == ni + nc,
                forall|j: int| 0 <= j < ni ==> #[trigger] names[j] == self.input@[j].0@,
                forall|j: int| ni <= j < ni + nc ==> #[trigger] names[j] == self.computed@[j - ni].0@,
                strings_view(r@) == distinct_names(names, i as int),
            decreases self.input@.len() - i,
        {
            assert(names[i as int] == self.input@[i as int].0@);
            push_distinct(&mut r, &self.input[i].0);
            i = i + 1;
        }
        let mut k: usize = 0;
        while k < self.computed.len()
            invariant
                0 <= k <= self.computed@.len(),
                ni == self.input@.len(),
                nc == self.computed@.len(),
                names == entry_names(self@.input) + entry_names(self@.computed),
                names.len() == ni + nc,
                forall|j: int| 0 <= j < ni ==> #[trigger] names[j] == self.input@[j].0@,
                forall|j: int| ni <= j < ni + nc ==> #[trigger] names[j] == self.computed@[j - ni].0@,
                strings_view(r@) == distinct_names(names, ni + k),
            decreases self.computed@.len() - k,
        {
            assert(names[ni + k] == self.computed@[k as int].0@);
            push_distinct(&mut r, &self.computed[k].0);
            k = k + 1;
        }
        proof {
            lemma_distinct_names(names, names.len() as int);
            assert(names.subrange(0, names.len() as int) =~= names);
            assert forall|n: Seq<char>| #[trigger] strings_view(r@).contains(n) <==> (context_value(self@, n) is Some) by {
                lemma_lookup_some(self@.input, n);
                lemma_lookup_some(self@.computed, n);
                if entry_names(self@.input).contains(n) {
                    let q = choose|q: int| 0 <= q < ni && #[trigger] entry_names(self@.input)[q] == n;
                    assert(names[q] == n);
                }
                if entry_names(self@.computed).contains(n) {
                    let q = choose|q: int| 0 <= q < nc && #[trigger] entry_names(self@.computed)[q] == n;
                    assert(names[ni + q] == n);
                }
                if names.contains(n) {
                    let q = choose|q: int| 0 <= q < names.len() && #[trigger] names[q] == n;
                    if q < ni {
                        assert(entry_names(self@.input)[q] == n);
                    } else {
                        assert(entry_names(self@.computed)[q - ni] == n);
                    }
                }
            }
            assert forall|a: int, b: int| 0 <= a < b < r@.len() implies r@[a]@ != r@[b]@ by {
                assert(strings_view(r@)[a] == r@[a]@);
                assert(strings_view(r@)[b] == r@[b]@);
            }
        }
        r
    }
}

/// A value that is set is what the context gives for its name from then
/// on, whatever the input held; the other names read as before.
pub proof fn lemma_set_then_get(c: SpecExecutionContext, key: Seq<char>, v: SpecJson, other: Seq<char>)
    ensures
        context_value(SpecExecutionContext { computed: assign(c.computed, key, v), ..c }, key) == Some(v),
        other != key ==> context_value(SpecExecutionContext { computed: assign(c.computed, key, v), ..c }, other)
            == context_value(c, other),
{
    lemma_assign_lookup(c.computed, key, v, other);
}

} // verus!
