//! A JSON value type of the library's own, used for journal payloads and
//! for the agent protocol messages the library inspects.

use vstd::prelude::*;
use crate::text::str_eq;

verus! {

/// A JSON number as the JSON reader classified it.
#[derive(Debug)]
pub enum JsonNumber {
    PosInt(u64),
    NegInt(i64),
    /// A number with a fraction or exponent, kept as its text.
    Float(String),
}

/// A JSON value. Object members keep their order; keys are looked up by first match.
#[derive(Debug)]
pub enum Json {
    Null,
    Bool(bool),
    Number(JsonNumber),
    Str(String),
    Array(Vec<Json>),
    Object(Vec<(String, Json)>),
}

/// The mathematical value of a JSON number.
pub enum JsonNumberV {
    PosInt(u64),
    NegInt(i64),
    Float(Seq<char>),
}

/// The mathematical value of a JSON value: strings as character
/// sequences, arrays and objects as sequences.
pub enum JsonV {
    Null,
    Bool(bool),
    Number(JsonNumberV),
    Str(Seq<char>),
    Array(Seq<JsonV>),
    Object(Seq<(Seq<char>, JsonV)>),
}

/// Views of the first `k` values of `s`.
pub open spec fn view_values(s: Seq<Json>, k: int) -> Seq<JsonV>
    decreases s, k,
{
    if k <= 0 || k > s.len() {
        Seq::empty()
    } else {
        view_values(s, k - 1).push(s[k - 1].view_rec())
    }
}

/// Views of the first `k` members of `s`.
pub open spec fn view_members(s: Seq<(String, Json)>, k: int) -> Seq<(Seq<char>, JsonV)>
    decreases s, k,
{
    if k <= 0 || k > s.len() {
        Seq::empty()
    } else {
        view_members(s, k - 1).push((s[k - 1].0@, s[k - 1].1.view_rec()))
    }
}

proof fn lemma_view_values(s: Seq<Json>, k: int)
    requires
        0 <= k <= s.len(),
    ensures
        view_values(s, k).len() == k,
        forall|i: int| 0 <= i < k ==> #[trigger] view_values(s, k)[i] == s[i].view_rec(),
    decreases k,
{
    if k > 0 {
        lemma_view_values(s, k - 1);
    }
}

proof fn lemma_view_members(s: Seq<(String, Json)>, k: int)
    requires
        0 <= k <= s.len(),
    ensures
        view_members(s, k).len() == k,
        forall|i: int| 0 <= i < k ==> #[trigger] view_members(s, k)[i] == (s[i].0@, s[i].1.view_rec()),
    decreases k,
{
    if k > 0 {
        lemma_view_members(s, k - 1);
    }
}

/// Views of all values of `s`.
pub open spec fn seq_view(s: Seq<Json>) -> Seq<JsonV> {
    view_values(s, s.len() as int)
}

/// Views of all members of `s`.
pub open spec fn members_view(s: Seq<(String, Json)>) -> Seq<(Seq<char>, JsonV)> {
    view_members(s, s.len() as int)
}

pub broadcast proof fn lemma_seq_view(s: Seq<Json>)
    ensures
        #[trigger] seq_view(s).len() == s.len(),
        forall|i: int| 0 <= i < s.len() ==> #[trigger] seq_view(s)[i] == s[i].view_rec(),
{
    lemma_view_values(s, s.len() as int);
}

pub broadcast proof fn lemma_members_view(s: Seq<(String, Json)>)
    ensures
        #[trigger] members_view(s).len() == s.len(),
        forall|i: int| 0 <= i < s.len() ==> #[trigger] members_view(s)[i] == (s[i].0@, s[i].1.view_rec()),
{
    lemma_view_members(s, s.len() as int);
}

impl Json {
    /// The mathematical value of this JSON value.
    pub open spec fn view_rec(self) -> JsonV
        decreases self, 0int,
    {
        match self {
            Json::Null => JsonV::Null,
            Json::Bool(b) => JsonV::Bool(b),
            Json::Number(JsonNumber::PosInt(n)) => JsonV::Number(JsonNumberV::PosInt(n)),
            Json::Number(JsonNumber::NegInt(n)) => JsonV::Number(JsonNumberV::NegInt(n)),
            Json::Number(JsonNumber::Float(s)) => JsonV::Number(JsonNumberV::Float(s@)),
            Json::Str(s) => JsonV::Str(s@),
            Json::Array(v) => JsonV::Array(view_values(v@, v@.len() as int)),
            Json::Object(es) => JsonV::Object(view_members(es@, es@.len() as int)),
        }
    }
}

impl View for Json {
    type V = JsonV;

    open spec fn view(&self) -> JsonV {
        self.view_rec()
    }
}

/// The value of the first member named `key`.
pub open spec fn find_member(es: Seq<(Seq<char>, JsonV)>, key: Seq<char>) -> Option<JsonV>
    decreases es.len(),
{
    if es.len() == 0 {
        None
    } else if es[0].0 == key {
        Some(es[0].1)
    } else {
        find_member(es.drop_first(), key)
    }
}

proof fn lemma_find_member(es: Seq<(Seq<char>, JsonV)>, key: Seq<char>, i: int)
    requires
        0 <= i <= es.len(),
        forall|j: int| 0 <= j < i ==> (#[trigger] es[j]).0 != key,
    ensures
        i < es.len() && es[i].0 == key ==> find_member(es, key) == Some(es[i].1),
        i == es.len() ==> find_member(es, key) is None,
    decreases i,
{
    if i > 0 {
        let t = es.drop_first();
        assert forall|j: int| 0 <= j < i - 1 implies (#[trigger] t[j]).0 != key by {
            assert(t[j] == es[j + 1]);
        }
        lemma_find_member(t, key, i - 1);
        if i < es.len() {
            assert(t[i - 1] == es[i]);
        }
    }
}

/// In an object, the member at index `i` is what `get` finds under its
/// name when no earlier member has that name.
pub proof fn lemma_object_get(es: Seq<(Seq<char>, JsonV)>, i: int)
    requires
        0 <= i < es.len(),
        forall|j: int| 0 <= j < i ==> (#[trigger] es[j]).0 != es[i].0,
    ensures
        JsonV::Object(es).get(es[i].0) == Some(es[i].1),
{
    lemma_find_member(es, es[i].0, i);
}

impl JsonV {
    /// The member `key` of an object; `None` for other values.
    pub open spec fn get(self, key: Seq<char>) -> Option<JsonV> {
        match self {
            JsonV::Object(es) => find_member(es, key),
            _ => None,
        }
    }

    /// The text of a string value.
    pub open spec fn as_str(self) -> Option<Seq<char>> {
        match self {
            JsonV::Str(s) => Some(s),
            _ => None,
        }
    }

    /// The text of member `key`, when that member is a string.
    pub open spec fn member_str(self, key: Seq<char>) -> Option<Seq<char>> {
        match self.get(key) {
            Some(v) => v.as_str(),
            None => None,
        }
    }
}

impl Json {
    /// Member lookup, as `serde_json::Value::get` with a string key.
    pub fn get(&self, key: &str) -> (r: Option<&Json>)
        ensures
            match r {
                Some(v) => self@.get(key@) == Some(v@),
                None => self@.get(key@) is None,
            },
    {
        broadcast use lemma_members_view;
        match self {
            Json::Object(es) => {
                let ghost mv = members_view(es@);
                proof { lemma_members_view(es@); }
                let mut i: usize = 0;
                while i < es.len()
                    invariant
                        *self == Json::Object(*es),
                        i <= es@.len(),
                        mv == members_view(es@),
                        mv.len() == es@.len(),
                        forall|j: int| 0 <= j < i ==> (#[trigger] mv[j]).0 != key@,
                    decreases es@.len() - i,
                {
                    proof { lemma_members_view(es@); }
                    if str_eq(es[i].0.as_str(), key) {
                        proof {
                            assert(mv[i as int] == (es@[i as int].0@, es@[i as int].1@));
                            lemma_find_member(mv, key@, i as int);
                        }
                        return Some(&es[i].1);
                    }
                    proof { assert(mv[i as int] == (es@[i as int].0@, es@[i as int].1@)); }
                    i += 1;
                }
                proof { lemma_find_member(mv, key@, i as int); }
                None
            },
            _ => None,
        }
    }

    pub fn as_str(&self) -> (r: Option<&str>)
        ensures
            match r {
                Some(s) => self@.as_str() == Some(s@),
                None => self@.as_str() is None,
            },
    {
        match self {
            Json::Str(s) => Some(s.as_str()),
            _ => None,
        }
    }

    pub fn as_array(&self) -> (r: Option<&Vec<Json>>)
        ensures
            match r {
                Some(v) => self@ == JsonV::Array(seq_view(v@)),
                None => !(self@ is Array),
            },
    {
        match self {
            Json::Array(v) => Some(v),
            _ => None,
        }
    }

    pub fn as_u64(&self) -> (r: Option<u64>)
        ensures
            r == match self@ {
                JsonV::Number(JsonNumberV::PosInt(n)) => Some(n),
                _ => None::<u64>,
            },
    {
        match self {
            Json::Number(JsonNumber::PosInt(n)) => Some(*n),
            _ => None,
        }
    }

    pub fn as_bool(&self) -> (r: Option<bool>)
        ensures
            r == match self@ {
                JsonV::Bool(b) => Some(b),
                _ => None::<bool>,
            },
    {
        match self {
            Json::Bool(b) => Some(*b),
            _ => None,
        }
    }

    /// The text of member `key`, when that member is a string.
    pub fn member_text(&self, key: &str) -> (r: Option<&str>)
        ensures
            match r {
                Some(s) => self@.member_str(key@) == Some(s@),
                None => self@.member_str(key@) is None,
            },
    {
        match self.get(key) {
            Some(v) => v.as_str(),
            None => None,
        }
    }

    /// A string value holding a copy of `s`.
    pub fn text(s: &str) -> (r: Json)
        ensures
            r@ == JsonV::Str(s@),
    {
        Json::Str(s.to_owned())
    }

    /// A copy of the value.
    pub fn deep_clone(&self) -> (r: Json)
        ensures
            r@ == self@,
        decreases self,
    {
        broadcast use {lemma_members_view, lemma_seq_view};
        match self {
            Json::Null => Json::Null,
            Json::Bool(b) => Json::Bool(*b),
            Json::Number(JsonNumber::PosInt(n)) => Json::Number(JsonNumber::PosInt(*n)),
            Json::Number(JsonNumber::NegInt(n)) => Json::Number(JsonNumber::NegInt(*n)),
            Json::Number(JsonNumber::Float(s)) => Json::Number(JsonNumber::Float(s.clone())),
            Json::Str(s) => Json::Str(s.clone()),
            Json::Array(v) => {
                proof { lemma_seq_view(v@); }
                let mut out: Vec<Json> = Vec::new();
                let mut i: usize = 0;
                while i < v.len()
                    invariant
                        *self == Json::Array(*v),
                        i <= v@.len(),
                        out@.len() == i,
                        forall|j: int| 0 <= j < i ==> (#[trigger] out@[j])@ == v@[j]@,
                    decreases v@.len() - i,
                {
                    proof {
                        assert(decreases_to!(*self => self->Array_0));
                        assert(self->Array_0 == *v);
                        assert(decreases_to!(*v => v@));
                        assert(decreases_to!(v@ => v@[i as int]));
                        assert(decreases_to!(*self => v@[i as int]));
                    }
                    let c = v[i].deep_clone();
                    out.push(c);
                    i += 1;
                }
                proof {
                    lemma_seq_view(out@);
                    assert(seq_view(out@) =~= seq_view(v@));
                }
                Json::Array(out)
            },
            Json::Object(es) => {
                proof { lemma_members_view(es@); }
                let mut out: Vec<(String, Json)> = Vec::new();
                let mut i: usize = 0;
                while i < es.len()
                    invariant
                        *self == Json::Object(*es),
                        i <= es@.len(),
                        out@.len() == i,
                        forall|j: int| 0 <= j < i ==> (#[trigger] out@[j]).0@ == es@[j].0@ && out@[j].1@ == es@[j].1@,
                    decreases es@.len() - i,
                {
                    proof {
                        assert(decreases_to!(*self => self->Object_0));
                        assert(self->Object_0 == *es);
                        assert(decreases_to!(*es => es@));
                        assert(decreases_to!(es@ => es@[i as int]));
                        assert(decreases_to!(es@[i as int] => es@[i as int].1));
                        assert(decreases_to!(*self => es@[i as int].1));
                    }
                    let k = es[i].0.clone();
                    let c = es[i].1.deep_clone();
                    out.push((k, c));
                    i += 1;
                }
                proof {
                    lemma_members_view(out@);
                    assert(members_view(out@) =~= members_view(es@));
                }
                Json::Object(out)
            },
        }
    }
}

/// An object member `key: value`.
pub fn member(key: &str, value: Json) -> (r: (String, Json))
    ensures
        r.0@ == key@,
        r.1@ == value@,
{
    (key.to_owned(), value)
}

/// A JSON integer as a JSON writer classifies it: non-negative ones as
/// unsigned, negative ones as signed.
pub open spec fn json_int(x: int) -> JsonV {
    if x >= 0 { JsonV::Number(JsonNumberV::PosInt(x as u64)) } else { JsonV::Number(JsonNumberV::NegInt(x as i64)) }
}

/// The JSON number for an integer (see `json_int`).
pub fn int_json(x: i64) -> (r: Json)
    ensures
        r@ == json_int(x as int),
{
    if x >= 0 { Json::Number(JsonNumber::PosInt(x as u64)) } else { Json::Number(JsonNumber::NegInt(x)) }
}

} // verus!
