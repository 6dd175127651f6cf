//! A JSON value held as plain data, the shape that LSP and MCP messages take,
//! with the lookups that the protocol logic performs on it.

use vstd::prelude::*;
use crate::text::str_eq;

verus! {

/// A JSON number as JSON-RPC peers send it: a non-negative integer, a negative
/// integer, or any other number kept as its decimal text.
#[derive(Debug, PartialEq)]
pub enum JsonNumber {
    PosInt(u64),
    NegInt(i64),
    Float(String),
}

/// A JSON value. Object members keep their order; keys are compared by their characters.
#[derive(Debug, PartialEq)]
pub enum JsonValue {
    Null,
    Bool(bool),
    Number(JsonNumber),
    Str(String),
    Array(Vec<JsonValue>),
    Object(Vec<(String, JsonValue)>),
}

/// The mathematical form of a JSON number.
pub enum Num {
    PosInt(u64),
    NegInt(i64),
    Float(Seq<char>),
}

/// The mathematical form of a JSON value: strings as character sequences,
/// arrays and objects as sequences.
pub enum Json {
    Null,
    Bool(bool),
    Number(Num),
    Str(Seq<char>),
    Array(Seq<Json>),
    Object(Seq<(Seq<char>, Json)>),
}

/// The form of a number.
pub open spec fn num_view(n: JsonNumber) -> Num {
    match n {
        JsonNumber::PosInt(u) => Num::PosInt(u),
        JsonNumber::NegInt(i) => Num::NegInt(i),
        JsonNumber::Float(t) => Num::Float(t@),
    }
}

/// The forms of the elements of an array.
pub open spec fn elems_view(s: Seq<JsonValue>) -> Seq<Json>
    decreases s, 1int,
{
    if s.len() == 0 {
        Seq::empty()
    } else {
        elems_view(s.subrange(0, s.len() - 1)).push(json_view(s[s.len() - 1]))
    }
}

/// The forms of the members of an object.
pub open spec fn members_view(s: Seq<(String, JsonValue)>) -> Seq<(Seq<char>, Json)>
    decreases s, 1int,
{
    if s.len() == 0 {
        Seq::empty()
    } else {
        members_view(s.subrange(0, s.len() - 1)).push((s[s.len() - 1].0@, json_view(s[s.len() - 1].1)))
    }
}

/// The form of a JSON value.
pub open spec fn json_view(v: JsonValue) -> Json
    decreases v, 0int,
{
    match v {
        JsonValue::Null => Json::Null,
        JsonValue::Bool(b) => Json::Bool(b),
        JsonValue::Number(n) => Json::Number(num_view(n)),
        JsonValue::Str(s) => Json::Str(s@),
        JsonValue::Array(a) => Json::Array(elems_view(a@)),
        JsonValue::Object(es) => Json::Object(members_view(es@)),
    }
}

impl View for JsonValue {
    type V = Json;

    open spec fn view(&self) -> Json {
        json_view(*self)
    }
}

/// The first member named `key` in `m`.
pub open spec fn members_lookup(m: Seq<(Seq<char>, Json)>, key: Seq<char>) -> Option<Json>
    decreases m.len(),
{
    if m.len() == 0 {
        None
    } else if m[0].0 == key {
        Some(m[0].1)
    } else {
        members_lookup(m.drop_first(), key)
    }
}

/// `v[key]` when `v` is an object holding that key (`Value::get`).
pub open spec fn jget(v: Json, key: Seq<char>) -> Option<Json> {
    match v {
        Json::Object(m) => members_lookup(m, key),
        _ => None,
    }
}

/// The string held by `v` (`Value::as_str`).
pub open spec fn jstr(v: Json) -> Option<Seq<char>> {
    match v {
        Json::Str(s) => Some(s),
        _ => None,
    }
}

/// The number held by `v` as a `u64` (`Value::as_u64`).
pub open spec fn ju64(v: Json) -> Option<u64> {
    match v {
        Json::Number(Num::PosInt(n)) => Some(n),
        _ => None,
    }
}

/// The number held by `v` as an `i64` (`Value::as_i64`).
pub open spec fn ji64(v: Json) -> Option<i64> {
    match v {
        Json::Number(Num::PosInt(n)) => if n <= i64::MAX as u64 { Some(n as i64) } else { None },
        Json::Number(Num::NegInt(n)) => Some(n),
        _ => None,
    }
}

/// The boolean held by `v` (`Value::as_bool`).
pub open spec fn jbool(v: Json) -> Option<bool> {
    match v {
        Json::Bool(b) => Some(b),
        _ => None,
    }
}

/// The elements of `v` (`Value::as_array`).
pub open spec fn jarray(v: Json) -> Option<Seq<Json>> {
    match v {
        Json::Array(a) => Some(a),
        _ => None,
    }
}

/// `v[key]` through an optional value (`Option::and_then(|x| x.get(key))`).
pub open spec fn oget(v: Option<Json>, key: Seq<char>) -> Option<Json> {
    match v {
        Some(x) => jget(x, key),
        None => None,
    }
}

/// The string inside an optional value.
pub open spec fn ostr(v: Option<Json>) -> Option<Seq<char>> {
    match v {
        Some(x) => jstr(x),
        None => None,
    }
}

/// The `u64` inside an optional value.
pub open spec fn ou64(v: Option<Json>) -> Option<u64> {
    match v {
        Some(x) => ju64(x),
        None => None,
    }
}

/// The boolean inside an optional value.
pub open spec fn obool(v: Option<Json>) -> Option<bool> {
    match v {
        Some(x) => jbool(x),
        None => None,
    }
}

/// The elements inside an optional value.
pub open spec fn oarray(v: Option<Json>) -> Option<Seq<Json>> {
    match v {
        Some(x) => jarray(x),
        None => None,
    }
}

/// `o.unwrap_or(d)`.
pub open spec fn or_default<T>(o: Option<T>, d: T) -> T {
    match o {
        Some(x) => x,
        None => d,
    }
}

/// `v[key]` as JSON indexing gives it: the member, or `null` (`Index for Value`).
pub open spec fn jindex(v: Json, key: Seq<char>) -> Json {
    or_default(jget(v, key), Json::Null)
}

/// The string at `v[key]`, or the empty string (`v[key].as_str().unwrap_or("")`).
pub open spec fn arg_str(v: Json, key: Seq<char>) -> Seq<char> {
    or_default(jstr(jindex(v, key)), Seq::empty())
}

/// The `u64` at `v[key]`, or `default`.
pub open spec fn arg_u64(v: Json, key: Seq<char>, default: u64) -> u64 {
    or_default(ju64(jindex(v, key)), default)
}

/// The boolean at `v[key]`, or `default`.
pub open spec fn arg_bool(v: Json, key: Seq<char>, default: bool) -> bool {
    or_default(jbool(jindex(v, key)), default)
}

/// The element views line up with the elements.
pub proof fn lemma_elems_view(s: Seq<JsonValue>)
    ensures
        elems_view(s).len() == s.len(),
        forall|i: int| 0 <= i < s.len() ==> #[trigger] elems_view(s)[i] == json_view(s[i]),
    decreases s.len(),
{
    if s.len() > 0 {
        lemma_elems_view(s.subrange(0, s.len() - 1));
    }
}

/// The member views line up with the members.
pub proof fn lemma_members_view(s: Seq<(String, JsonValue)>)
    ensures
        members_view(s).len() == s.len(),
        forall|i: int| 0 <= i < s.len() ==> #[trigger] members_view(s)[i] == (s[i].0@, json_view(s[i].1)),
    decreases s.len(),
{
    if s.len() > 0 {
        lemma_members_view(s.subrange(0, s.len() - 1));
    }
}

impl JsonValue {
    /// Looks up a member of an object (`Value::get` with a string key).
    pub fn get(&self, key: &str) -> (r: Option<&JsonValue>)
        ensures
            match r {
                Some(x) => jget(self@, key@) == Some(x@),
                None => jget(self@, key@) is None,
            },
    {
        match self {
            JsonValue::Object(es) => {
                let ghost m = members_view(es@);
                proof { lemma_members_view(es@); }
                let mut i: usize = 0;
                assert(m.skip(0) =~= m);
                while i < es.len()
                    invariant
                        i <= es.len(),
                        m == members_view(es@),
                        m.len() == es@.len(),
                        forall|j: int| 0 <= j < es@.len() ==> #[trigger] m[j] == (es@[j].0@, json_view(es@[j].1)),
                        jget(self@, key@) == members_lookup(m, key@),
                        members_lookup(m, key@) == members_lookup(m.skip(i as int), key@),
                    decreases es.len() - i,
                {
                    assert(m.skip(i as int).drop_first() =~= m.skip(i + 1));
                    assert(m.skip(i as int)[0] == m[i as int]);
                    if str_eq(es[i].0.as_str(), key) {
                        return Some(&es[i].1);
                    }
                    i += 1;
                }
                None
            },
            _ => None,
        }
    }

    /// The string held by this value (`Value::as_str`).
    pub fn as_str(&self) -> (r: Option<&str>)
        ensures
            match r {
                Some(s) => jstr(self@) == Some(s@),
                None => jstr(self@) is None,
            },
    {
        match self {
            JsonValue::Str(s) => Some(s.as_str()),
            _ => None,
        }
    }

    /// The value as a `u64` (`Value::as_u64`).
    pub fn as_u64(&self) -> (r: Option<u64>)
        ensures
            r == ju64(self@),
    {
        match self {
            JsonValue::Number(JsonNumber::PosInt(n)) => Some(*n),
            _ => None,
        }
    }

    /// The value as an `i64` (`Value::as_i64`).
    pub fn as_i64(&self) -> (r: Option<i64>)
        ensures
            r == ji64(self@),
    {
        match self {
            JsonValue::Number(JsonNumber::PosInt(n)) => if *n <= i64::MAX as u64 { Some(*n as i64) } else { None },
            JsonValue::Number(JsonNumber::NegInt(n)) => Some(*n),
            _ => None,
        }
    }

    /// The value as a boolean (`Value::as_bool`).
    pub fn as_bool(&self) -> (r: Option<bool>)
        ensures
            r == jbool(self@),
    {
        match self {
            JsonValue::Bool(b) => Some(*b),
            _ => None,
        }
    }

    /// `self[key].as_str().unwrap_or("")`.
    pub fn str_arg(&self, key: &str) -> (r: &str)
        ensures
            r@ == arg_str(self@, key@),
    {
        proof {
            reveal_strlit("");
        }
        match self.get(key) {
            Some(x) => match x.as_str() {
                Some(s) => s,
                None => "",
            },
            None => "",
        }
    }

    /// `self[key].as_u64().unwrap_or(default)`.
    pub fn u64_arg(&self, key: &str, default: u64) -> (r: u64)
        ensures
            r == arg_u64(self@, key@, default),
    {
        match self.get(key) {
            Some(x) => match x.as_u64() {
                Some(n) => n,
                None => default,
            },
            None => default,
        }
    }

    /// `self[key].as_bool().unwrap_or(default)`.
    pub fn bool_arg(&self, key: &str, default: bool) -> (r: bool)
        ensures
            r == arg_bool(self@, key@, default),
    {
        match self.get(key) {
            Some(x) => match x.as_bool() {
                Some(b) => b,
                None => default,
            },
            None => default,
        }
    }

    /// Whether this value is an object (`Value::is_object`).
    pub fn is_object(&self) -> (r: bool)
        ensures
            r == (self@ is Object),
    {
        match self {
            JsonValue::Object(_) => true,
            _ => false,
        }
    }

    /// Whether this value is a string (`Value::is_string`).
    pub fn is_string(&self) -> (r: bool)
        ensures
            r == (self@ is Str),
    {
        match self {
            JsonValue::Str(_) => true,
            _ => false,
        }
    }

    /// A string value.
    pub fn string(s: &str) -> (r: JsonValue)
        ensures
            r@ == Json::Str(s@),
    {
        JsonValue::Str(String::from_str(s))
    }

    /// A non-negative integer value.
    pub fn uint(n: u64) -> (r: JsonValue)
        ensures
            r@ == Json::Number(Num::PosInt(n)),
    {
        JsonValue::Number(JsonNumber::PosInt(n))
    }

    /// An integer value, held as serde_json holds it (non-negative ones as `PosInt`).
    pub fn integer(n: i64) -> (r: JsonValue)
        ensures
            r@ == (if n >= 0 { Json::Number(Num::PosInt(n as u64)) } else { Json::Number(Num::NegInt(n)) }),
    {
        if n >= 0 {
            JsonValue::Number(JsonNumber::PosInt(n as u64))
        } else {
            JsonValue::Number(JsonNumber::NegInt(n))
        }
    }

    /// An object with the given members, in order.
    pub fn object(members: Vec<(String, JsonValue)>) -> (r: JsonValue)
        ensures
            r@ == Json::Object(members_view(members@)),
    {
        JsonValue::Object(members)
    }

    /// An array with the given elements, in order.
    pub fn array(elems: Vec<JsonValue>) -> (r: JsonValue)
        ensures
            r@ == Json::Array(elems_view(elems@)),
    {
        JsonValue::Array(elems)
    }

    /// A copy of this value (`Value::clone`).
    pub fn deep_clone(&self) -> (r: JsonValue)
        ensures
            r@ == self@,
        decreases self,
    {
        match self {
            JsonValue::Null => JsonValue::Null,
            JsonValue::Bool(b) => JsonValue::Bool(*b),
            JsonValue::Number(JsonNumber::PosInt(n)) => JsonValue::Number(JsonNumber::PosInt(*n)),
            JsonValue::Number(JsonNumber::NegInt(n)) => JsonValue::Number(JsonNumber::NegInt(*n)),
            JsonValue::Number(JsonNumber::Float(t)) => JsonValue::Number(JsonNumber::Float(t.clone())),
            JsonValue::Str(s) => JsonValue::Str(s.clone()),
            JsonValue::Array(a) => {
                let mut out: Vec<JsonValue> = Vec::new();
                let mut i: usize = 0;
                proof { lemma_elems_view(a@); }
                while i < a.len()
                    invariant
                        *self == JsonValue::Array(*a),
                        i <= a.len(),
                        out@.len() == i,
                        forall|j: int| 0 <= j < i ==> #[trigger] json_view(out@[j]) == json_view(a@[j]),
                    decreases a.len() - i,
                {
                    proof {
                        assert(decreases_to!(*self => (*self)->Array_0));
                        assert((*self)->Array_0 == *a);
                        assert(decreases_to!(*a => a@));
                        assert(decreases_to!(a@ => a@[i as int]));
                        assert(decreases_to!(*self => a@[i as int]));
                    }
                    let c = a[i].deep_clone();
                    out.push(c);
                    i += 1;
                }
                proof {
                    lemma_elems_view(out@);
                    assert(elems_view(out@) =~= elems_view(a@));
                }
                JsonValue::Array(out)
            },
            JsonValue::Object(es) => {
                let mut out: Vec<(String, JsonValue)> = Vec::new();
                let mut i: usize = 0;
                proof { lemma_members_view(es@); }
                while i < es.len()
                    invariant
                        *self == JsonValue::Object(*es),
                        i <= es.len(),
                        out@.len() == i,
                        forall|j: int| 0 <= j < i ==> #[trigger] out@[j].0@ == es@[j].0@ && json_view(out@[j].1) == json_view(es@[j].1),
                    decreases es.len() - i,
                {
                    proof {
                        assert(decreases_to!(*self => (*self)->Object_0));
                        assert((*self)->Object_0 == *es);
                        assert(decreases_to!(*es => es@));
                        assert(decreases_to!(es@ => es@[i as int]));
                        assert(decreases_to!(es@[i as int] => es@[i as int].1));
                        assert(decreases_to!(*self => es@[i as int].1));
                    }
                    let c = es[i].1.deep_clone();
                    out.push((es[i].0.clone(), c));
                    i += 1;
                }
                proof {
                    lemma_members_view(out@);
                    assert(members_view(out@) =~= members_view(es@));
                }
                JsonValue::Object(out)
            },
        }
    }

    /// The elements of an array (`Value::as_array`).
    pub fn as_array(&self) -> (r: Option<&Vec<JsonValue>>)
        ensures
            match r {
                Some(a) => jarray(self@) == Some(elems_view(a@)),
                None => jarray(self@) is None,
            },
    {
        match self {
            JsonValue::Array(a) => Some(a),
            _ => None,
        }
    }
}

} // verus!
