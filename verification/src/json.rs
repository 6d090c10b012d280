//! JSON values as the rules read them, held as plain data.
//!
//! Documents are parsed outside the library (with `serde_json`) into this
//! type; an object keeps its members in order, with unique keys.
use vstd::prelude::*;

verus! {

#[derive(Debug)]
pub enum Json {
    Null,
    Bool(bool),
    /// A number, with its value where it is a non-negative integer that fits in `u64`.
    Number(Option<u64>),
    Str(String),
    Array(Vec<Json>),
    Object(Vec<(String, Json)>),
}

/// The member `key` of an object (`Value::get`), if the value is an object that has it.
pub open spec fn member(v: Json, key: Seq<char>) -> Option<Json> {
    match v {
        Json::Object(ms) => member_of(ms@, key),
        _ => None,
    }
}

pub open spec fn member_of(ms: Seq<(String, Json)>, key: Seq<char>) -> Option<Json>
    decreases ms.len(),
{
    if ms.len() == 0 {
        None
    } else if ms[0].0@ == key {
        Some(ms[0].1)
    } else {
        member_of(ms.drop_first(), key)
    }
}

/// `value[key]` as `serde_json` indexes: the member, or `null` where there is none.
pub open spec fn index(v: Json, key: Seq<char>) -> Json {
    match member(v, key) {
        Some(m) => m,
        None => Json::Null,
    }
}

pub open spec fn as_text(v: Json) -> Option<Seq<char>> {
    match v {
        Json::Str(s) => Some(s@),
        _ => None,
    }
}

pub open spec fn as_u64(v: Json) -> Option<u64> {
    match v {
        Json::Number(n) => n,
        _ => None,
    }
}

pub open spec fn as_items(v: Json) -> Option<Seq<Json>> {
    match v {
        Json::Array(items) => Some(items@),
        _ => None,
    }
}

fn member_at<'a>(ms: &'a Vec<(String, Json)>, key: &str) -> (r: Option<&'a Json>)
    ensures
        match r {
            Some(m) => member_of(ms@, key@) == Some(*m),
            None => member_of(ms@, key@) is None,
        },
{
    let k = crate::text::chars_of(key);
    let mut i: usize = 0;
    assert(ms@.skip(0) =~= ms@);
    while i < ms.len()
        invariant
            i <= ms@.len(),
            k@ == key@,
            member_of(ms@, key@) == member_of(ms@.skip(i as int), key@),
        decreases ms@.len() - i,
    {
        assert(ms@.skip(i as int).drop_first() =~= ms@.skip(i + 1));
        assert(ms@.skip(i as int)[0] == ms@[i as int]);
        let name = crate::text::chars_of(ms[i].0.as_str());
        if crate::text::eq_chars(&name, &k) {
            return Some(&ms[i].1);
        }
        i += 1;
    }
    None
}

impl Json {
    /// The member `key`, if this is an object that has it.
    pub fn get(&self, key: &str) -> (r: Option<&Json>)
        ensures
            match r {
                Some(m) => member(*self, key@) == Some(*m),
                None => member(*self, key@) is None,
            },
    {
        match self {
            Json::Object(ms) => member_at(ms, key),
            _ => None,
        }
    }

    pub fn as_str(&self) -> (r: Option<&str>)
        ensures
            match r {
                Some(s) => as_text(*self) == Some(s@),
                None => as_text(*self) is None,
            },
    {
        match self {
            Json::Str(s) => Some(s.as_str()),
            _ => None,
        }
    }

    pub fn as_array(&self) -> (r: Option<&Vec<Json>>)
        ensures
            match r {
                Some(items) => as_items(*self) == Some(items@),
                None => as_items(*self) is None,
            },
    {
        match self {
            Json::Array(items) => Some(items),
            _ => None,
        }
    }

    pub fn as_number(&self) -> (r: Option<u64>)
        ensures
            r == as_u64(*self),
    {
        match self {
            Json::Number(n) => *n,
            _ => None,
        }
    }
}

} // verus!
