//! JSON values, as produced by the FarmScript compiler.
//!
//! A [`Json`] value is a plain tree; its model [`SpecJson`] replaces the
//! strings and vectors by sequences.  Numbers are held either as integers or,
//! for floating-point numbers, as the decimal text they were written with.

use vstd::prelude::*;

verus! {

/// A JSON value
#[derive(Debug, PartialEq)]
pub enum Json {
    Null,
    Bool(bool),
    /// An integral number
    Int(i64),
    /// A floating-point number, as decimal text (e.g. `2.5e-3`)
    Float(String),
    Str(String),
    Array(Vec<Json>),
    /// The members of an object, in the order they were written
    Object(Vec<(String, Json)>),
}

/// Model of a [`Json`] value.
pub enum SpecJson {
    Null,
    Bool(bool),
    Int(i64),
    Float(Seq<char>),
    Str(Seq<char>),
    Array(Seq<SpecJson>),
    Object(Seq<(Seq<char>, SpecJson)>),
}

pub open spec fn json_view(j: Json) -> SpecJson
    decreases j,
{
    match j {
        Json::Null => SpecJson::Null,
        Json::Bool(b) => SpecJson::Bool(b),
        Json::Int(n) => SpecJson::Int(n),
        Json::Float(t) => SpecJson::Float(t@),
        Json::Str(s) => SpecJson::Str(s@),
        Json::Array(v) => SpecJson::Array(jsons_view(v@)),
        Json::Object(m) => SpecJson::Object(members_view(m@)),
    }
}

/// The models of a sequence of values.
pub open spec fn jsons_view(v: Seq<Json>) -> Seq<SpecJson>
    decreases v,
{
    if v.len() == 0 {
        seq![]
    } else {
        seq![json_view(v[0])] + jsons_view(v.subrange(1, v.len() as int))
    }
}

/// The models of the members of an object.
pub open spec fn members_view(m: Seq<(String, Json)>) -> Seq<(Seq<char>, SpecJson)>
    decreases m,
{
    if m.len() == 0 {
        seq![]
    } else {
        seq![(m[0].0@, json_view(m[0].1))] + members_view(m.subrange(1, m.len() as int))
    }
}

/// `jsons_view` is taken element by element.
pub proof fn lemma_jsons_view(v: Seq<Json>)
    ensures
        jsons_view(v).len() == v.len(),
        forall|i: int| 0 <= i < v.len() ==> #[trigger] jsons_view(v)[i] == json_view(v[i]),
    decreases v.len(),
{
    if v.len() > 0 {
        let rest = v.subrange(1, v.len() as int);
        lemma_jsons_view(rest);
        assert forall|i: int| 0 <= i < v.len() implies #[trigger] jsons_view(v)[i] == json_view(v[i]) by {
            if i > 0 {
                assert(rest[i - 1] == v[i]);
            }
        }
    }
}

/// `members_view` is taken member by member.
pub proof fn lemma_members_view(m: Seq<(String, Json)>)
    ensures
        members_view(m).len() == m.len(),
        forall|i: int| 0 <= i < m.len() ==> #[trigger] members_view(m)[i] == (m[i].0@, json_view(m[i].1)),
    decreases m.len(),
{
    if m.len() > 0 {
        let rest = m.subrange(1, m.len() as int);
        lemma_members_view(rest);
        assert forall|i: int| 0 <= i < m.len() implies #[trigger] members_view(m)[i] == (m[i].0@, json_view(m[i].1)) by {
            if i > 0 {
                assert(rest[i - 1] == m[i]);
            }
        }
    }
}

impl View for Json {
    type V = SpecJson;

    open spec fn view(&self) -> SpecJson {
        json_view(*self)
    }
}

impl Json {
    /// A deep copy of the value.
    pub fn duplicate(&self) -> (r: Json)
        ensures
            r@ == self@,
        decreases self,
    {
        match self {
            Json::Null => Json::Null,
            Json::Bool(b) => Json::Bool(*b),
            Json::Int(n) => Json::Int(*n),
            Json::Float(t) => Json::Float(t.clone()),
            Json::Str(s) => Json::Str(s.clone()),
            Json::Array(v) => {
                let mut out: Vec<Json> = Vec::new();
                let mut i: usize = 0;
                while i < v.len()
                    invariant
                        *self == Json::Array(*v),
                        0 <= i <= v@.len(),
                        out@.len() == i,
                        forall|k: int| 0 <= k < i ==> json_view(#[trigger] out@[k]) == json_view(v@[k]),
                    decreases v@.len() - i,
                {
                    proof {
                        assert(decreases_to!(*self => (*self)->Array_0));
                        assert(decreases_to!(*v => v@));
                        assert(decreases_to!(v@ => v@[i as int]));
                        assert(decreases_to!(*self => v@[i as int]));
                    }
                    out.push(v[i].duplicate());
                    i = i + 1;
                }
                proof {
                    lemma_jsons_view(out@);
                    lemma_jsons_view(v@);
                    assert(jsons_view(out@) =~= jsons_view(v@));
                }
                Json::Array(out)
            },
            Json::Object(m) => {
                let mut out: Vec<(String, Json)> = Vec::new();
                let mut i: usize = 0;
                while i < m.len()
                    invariant
                        *self == Json::Object(*m),
                        0 <= i <= m@.len(),
                        out@.len() == i,
                        forall|k: int|
                            0 <= k < i ==> (#[trigger] out@[k]).0@ == m@[k].0@ && json_view(out@[k].1)
                                == json_view(m@[k].1),
                    decreases m@.len() - i,
                {
                    proof {
                        assert(decreases_to!(*self => (*self)->Object_0));
                        assert(decreases_to!(*m => m@));
                        assert(decreases_to!(m@ => m@[i as int]));
                        assert(decreases_to!(m@[i as int] => m@[i as int].1));
                        assert(decreases_to!(*self => m@[i as int].1));
                    }
                    let (key, value) = &m[i];
                    out.push((key.clone(), value.duplicate()));
                    i = i + 1;
                }
                proof {
                    lemma_members_view(out@);
                    lemma_members_view(m@);
                    assert(members_view(out@) =~= members_view(m@));
                }
                Json::Object(out)
            },
        }
    }
}

impl Json {
    /// Whether two values are the same JSON value.
    pub fn same(&self, other: &Json) -> (r: bool)
        ensures
            r == (self@ == other@),
        decreases self,
    {
        match (self, other) {
            (Json::Null, Json::Null) => true,
            (Json::Bool(a), Json::Bool(b)) => *a == *b,
            (Json::Int(a), Json::Int(b)) => *a == *b,
            (Json::Float(a), Json::Float(b)) => crate::text::chars_equal(
                crate::text::str_chars(a.as_str()).as_slice(),
                crate::text::str_chars(b.as_str()).as_slice(),
            ),
            (Json::Str(a), Json::Str(b)) => crate::text::chars_equal(
                crate::text::str_chars(a.as_str()).as_slice(),
                crate::text::str_chars(b.as_str()).as_slice(),
            ),
            (Json::Array(a), Json::Array(b)) => {
                proof {
                    lemma_jsons_view(a@);
                    lemma_jsons_view(b@);
                }
                if a.len() != b.len() {
                    return false;
                }
                let mut i: usize = 0;
                while i < a.len()
                    invariant
                        *self == Json::Array(*a),
                        *other == Json::Array(*b),
                        0 <= i <= a@.len(),
                        a@.len() == b@.len(),
                        jsons_view(a@).len() == a@.len(),
                        jsons_view(b@).len() == b@.len(),
                        forall|k: int| 0 <= k < a@.len() ==> #[trigger] jsons_view(a@)[k] == json_view(a@[k]),
                        forall|k: int| 0 <= k < b@.len() ==> #[trigger] jsons_view(b@)[k] == json_view(b@[k]),
                        forall|k: int| 0 <= k < i ==> json_view(#[trigger] a@[k]) == json_view(b@[k]),
                    decreases a@.len() - i,
                {
                    proof {
                        assert(decreases_to!(*self => (*self)->Array_0));
                        assert(decreases_to!(*a => a@));
                        assert(decreases_to!(a@ => a@[i as int]));
                        assert(decreases_to!(*self => a@[i as int]));
                    }
                    if !a[i].same(&b[i]) {
                        assert(jsons_view(a@)[i as int] != jsons_view(b@)[i as int]);
                        return false;
                    }
                    i = i + 1;
                }
                assert(jsons_view(a@) =~= jsons_view(b@));
                true
            },
            (Json::Object(a), Json::Object(b)) => {
                proof {
                    lemma_members_view(a@);
                    lemma_members_view(b@);
                }
                if a.len() != b.len() {
                    return false;
                }
                let mut i: usize = 0;
                while i < a.len()
                    invariant
                        *self == Json::Object(*a),
                        *other == Json::Object(*b),
                        0 <= i <= a@.len(),
                        a@.len() == b@.len(),
                        members_view(a@).len() == a@.len(),
                        members_view(b@).len() == b@.len(),
                        forall|k: int| 0 <= k < a@.len() ==> #[trigger] members_view(a@)[k] == (a@[k].0@, json_view(a@[k].1)),
                        forall|k: int| 0 <= k < b@.len() ==> #[trigger] members_view(b@)[k] == (b@[k].0@, json_view(b@[k].1)),
                        forall|k: int| 0 <= k < i ==> #[trigger] members_view(a@)[k] == members_view(b@)[k],
                    decreases a@.len() - i,
                {
                    proof {
                        assert(decreases_to!(*self => (*self)->Object_0));
                        assert(decreases_to!(*a => a@));
                        assert(decreases_to!(a@ => a@[i as int]));
                        assert(decreases_to!(a@[i as int] => a@[i as int].1));
                        assert(decreases_to!(*self => a@[i as int].1));
                    }
                    let ka = crate::text::str_chars(a[i].0.as_str());
                    let kb = crate::text::str_chars(b[i].0.as_str());
                    if !crate::text::chars_equal(ka.as_slice(), kb.as_slice()) {
                        assert(members_view(a@)[i as int] != members_view(b@)[i as int]);
                        return false;
                    }
                    if !a[i].1.same(&b[i].1) {
                        assert(members_view(a@)[i as int] != members_view(b@)[i as int]);
                        return false;
                    }
                    i = i + 1;
                }
                assert(members_view(a@) =~= members_view(b@));
                true
            },
            _ => false,
        }
    }
}

} // verus!
