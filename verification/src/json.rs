//! JSON documents as the library reads and builds them.
//!
//! Outside tools (trackers, herdr, docker) answer with JSON; the library
//! reads their answers into [`Json`], a value of its own, and builds its own
//! answers as [`Json`] too.
use vstd::prelude::*;
use crate::text::{chars_eq, chars_of, string_of};

verus! {

/// A JSON value. Numbers keep their text and, when they are an unsigned
/// integer that fits in 64 bits, that integer.
pub enum Json {
    Null,
    Bool(bool),
    Number(String, Option<u64>),
    Str(String),
    Array(Vec<Json>),
    Object(Vec<(String, Json)>),
}

/// `i` is the first member of `entries` named `key`.
pub open spec fn is_first_key(entries: Seq<(String, Json)>, key: Seq<char>, i: int) -> bool {
    &&& 0 <= i < entries.len()
    &&& entries[i].0@ == key
    &&& forall|j: int| 0 <= j < i ==> entries[j].0@ != key
}

/// The value of the first member named `key`.
pub open spec fn member(entries: Seq<(String, Json)>, key: Seq<char>) -> Option<Json> {
    if exists|i: int| is_first_key(entries, key, i) {
        Some(entries[choose|i: int| is_first_key(entries, key, i)].1)
    } else {
        None
    }
}

/// `v[key]`: the member of an object, if `v` is one and has it.
pub open spec fn field(v: Json, key: Seq<char>) -> Option<Json> {
    match v {
        Json::Object(entries) => member(entries@, key),
        _ => None,
    }
}

/// `v[key].as_str()`.
pub open spec fn str_field(v: Json, key: Seq<char>) -> Option<Seq<char>> {
    match field(v, key) {
        Some(Json::Str(s)) => Some(s@),
        _ => None,
    }
}

/// `v[key].as_bool()`.
pub open spec fn bool_field(v: Json, key: Seq<char>) -> Option<bool> {
    match field(v, key) {
        Some(Json::Bool(b)) => Some(b),
        _ => None,
    }
}

/// `v[key].as_u64()`.
pub open spec fn u64_field(v: Json, key: Seq<char>) -> Option<u64> {
    match field(v, key) {
        Some(Json::Number(_, n)) => n,
        _ => None,
    }
}

/// `v[key].as_array()`.
pub open spec fn array_field(v: Json, key: Seq<char>) -> Option<Seq<Json>> {
    match field(v, key) {
        Some(Json::Array(items)) => Some(items@),
        _ => None,
    }
}

/// `v[key].is_null()`: the member is missing or `null`.
pub open spec fn null_field(v: Json, key: Seq<char>) -> bool {
    match field(v, key) {
        None => true,
        Some(Json::Null) => true,
        _ => false,
    }
}

/// `v.as_array()`.
pub open spec fn array_items(v: Json) -> Option<Seq<Json>> {
    match v {
        Json::Array(items) => Some(items@),
        _ => None,
    }
}

impl Json {
    /// `self[key]`.
    pub fn get(&self, key: &str) -> (r: Option<&Json>)
        ensures
            match r {
                Some(x) => field(*self, key@) == Some(*x),
                None => field(*self, key@) is None,
            },
    {
        match self {
            Json::Object(entries) => {
                let k = chars_of(key);
                let mut i: usize = 0;
                while i < entries.len()
                    invariant
                        i <= entries@.len(),
                        k@ == key@,
                        field(*self, key@) == member(entries@, key@),
                        forall|j: int| 0 <= j < i ==> entries@[j].0@ != key@,
                    decreases entries.len() - i,
                {
                    let name = chars_of(entries[i].0.as_str());
                    if chars_eq(&name, &k) {
                        proof {
                            let c = choose|c: int| is_first_key(entries@, key@, c);
                            assert(is_first_key(entries@, key@, i as int));
                            if c < i {
                                assert(entries@[c].0@ != key@);
                            } else if i < c {
                                assert(entries@[i as int].0@ != key@);
                            }
                            assert(c == i);
                            assert(member(entries@, key@) == Some(entries@[i as int].1));
                            assert(field(*self, key@) == Some(entries@[i as int].1));
                        }
                        let found = &entries[i].1;
                        assert(*found == entries@[i as int].1);
                        return Some(found);
                    }
                    i = i + 1;
                }
                None
            },
            _ => None,
        }
    }

    /// `self[key].as_str()`.
    pub fn str_at(&self, key: &str) -> (r: Option<&str>)
        ensures
            match r {
                Some(s) => str_field(*self, key@) == Some(s@),
                None => str_field(*self, key@) is None,
            },
    {
        match self.get(key) {
            Some(Json::Str(s)) => Some(s.as_str()),
            _ => None,
        }
    }

    /// `self[key].as_bool()`.
    pub fn bool_at(&self, key: &str) -> (r: Option<bool>)
        ensures
            r == bool_field(*self, key@),
    {
        match self.get(key) {
            Some(Json::Bool(b)) => Some(*b),
            _ => None,
        }
    }

    /// `self[key].as_u64()`.
    pub fn u64_at(&self, key: &str) -> (r: Option<u64>)
        ensures
            r == u64_field(*self, key@),
    {
        match self.get(key) {
            Some(Json::Number(_, n)) => *n,
            _ => None,
        }
    }

    /// `self[key].as_array()`.
    pub fn array_at(&self, key: &str) -> (r: Option<&Vec<Json>>)
        ensures
            match r {
                Some(v) => array_field(*self, key@) == Some(v@),
                None => array_field(*self, key@) is None,
            },
    {
        match self.get(key) {
            Some(Json::Array(items)) => Some(items),
            _ => None,
        }
    }

    /// `self[key].is_null()`.
    pub fn null_at(&self, key: &str) -> (b: bool)
        ensures
            b == null_field(*self, key@),
    {
        match self.get(key) {
            None => true,
            Some(Json::Null) => true,
            _ => false,
        }
    }

    /// `self.as_array()`.
    pub fn items(&self) -> (r: Option<&Vec<Json>>)
        ensures
            match r {
                Some(v) => array_items(*self) == Some(v@),
                None => array_items(*self) is None,
            },
    {
        match self {
            Json::Array(items) => Some(items),
            _ => None,
        }
    }

    /// A string value.
    pub fn string(s: &[char]) -> (j: Json)
        ensures
            j matches Json::Str(x) && x@ == s@,
    {
        Json::Str(string_of(s))
    }

    /// A string value made from a text.
    pub fn text(s: &str) -> (j: Json)
        ensures
            j matches Json::Str(x) && x@ == s@,
    {
        Json::Str(string_of(&chars_of(s)))
    }

    /// An unsigned number.
    pub fn unsigned(n: u64) -> (j: Json)
        ensures
            j matches Json::Number(t, Some(m)) && m == n && t@ == decimal_text(n as nat),
    {
        Json::Number(decimal(n), Some(n))
    }
}

/// The member list of an object, built in order.
pub fn member_of(key: &str, value: Json) -> (m: (String, Json))
    ensures
        m.0@ == key@,
        m.1 == value,
{
    (string_of(&chars_of(key)), value)
}

/// The decimal digits of `n`.
pub open spec fn decimal_text(n: nat) -> Seq<char>
    decreases n,
{
    if n < 10 {
        seq![digit_char(n)]
    } else {
        decimal_text(n / 10) + seq![digit_char(n % 10)]
    }
}

pub open spec fn digit_char(d: nat) -> char {
    if d == 0 { '0' }
    else if d == 1 { '1' }
    else if d == 2 { '2' }
    else if d == 3 { '3' }
    else if d == 4 { '4' }
    else if d == 5 { '5' }
    else if d == 6 { '6' }
    else if d == 7 { '7' }
    else if d == 8 { '8' }
    else { '9' }
}

fn digit(d: u64) -> (c: char)
    requires
        d < 10,
    ensures
        c == digit_char(d as nat),
{
    if d == 0 { '0' }
    else if d == 1 { '1' }
    else if d == 2 { '2' }
    else if d == 3 { '3' }
    else if d == 4 { '4' }
    else if d == 5 { '5' }
    else if d == 6 { '6' }
    else if d == 7 { '7' }
    else if d == 8 { '8' }
    else { '9' }
}

/// The decimal text of `n`.
pub fn decimal(n: u64) -> (s: String)
    ensures
        s@ == decimal_text(n as nat),
{
    let v = decimal_chars(n);
    string_of(&v)
}

fn decimal_chars(n: u64) -> (v: Vec<char>)
    ensures
        v@ == decimal_text(n as nat),
    decreases n,
{
    if n < 10 {
        let mut v = Vec::new();
        v.push(digit(n));
        proof {
            assert(v@ =~= seq![digit_char(n as nat)]);
        }
        v
    } else {
        let mut v = decimal_chars(n / 10);
        v.push(digit(n % 10));
        proof {
            assert(v@ =~= decimal_text((n / 10) as nat) + seq![digit_char((n % 10) as nat)]);
        }
        v
    }
}

/// Declares `serde_json::Value` so that the reader below can name it.
#[verifier::external_type_specification]
#[verifier::external_body]
pub struct ExValue(serde_json::Value);

/// What `serde_json::from_str::<Value>` reads from a text, as a [`Json`]
/// (`None` where the text is no JSON document).
pub uninterp spec fn json_of_text(text: Seq<char>) -> Option<Json>;

/// Reads a JSON document with `serde_json::from_str`. The contract claims
/// only that the result depends on the text alone (it is named
/// [`json_of_text`]); the JSON grammar itself is serde_json's.
#[verifier::external_body]
fn serde_read(text: &str) -> (r: Option<Json>)
    ensures
        r == json_of_text(text@),
{
    serde_json::from_str::<serde_json::Value>(text).ok().map(json_from_value)
}

/// Turns a `serde_json::Value` into a [`Json`], one variant for one, for
/// [`serde_read`].
#[verifier::external_body]
fn json_from_value(v: serde_json::Value) -> Json {
    match v {
        serde_json::Value::Null => Json::Null,
        serde_json::Value::Bool(b) => Json::Bool(b),
        serde_json::Value::Number(n) => Json::Number(n.to_string(), n.as_u64()),
        serde_json::Value::String(s) => Json::Str(s),
        serde_json::Value::Array(a) => Json::Array(a.into_iter().map(json_from_value).collect()),
        serde_json::Value::Object(m) => Json::Object(
            m.into_iter().map(|(k, v)| (k, json_from_value(v))).collect(),
        ),
    }
}


/// Reads a JSON document (serde_json's grammar): the value the text holds,
/// none when it holds no JSON document.
pub fn parse_json(text: &str) -> (r: Option<Json>)
    ensures
        r == json_of_text(text@),
{
    serde_read(text)
}

} // verus!
