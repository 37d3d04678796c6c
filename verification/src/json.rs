//! A JSON document as the processors read it: objects keep their members in
//! order, and numbers are kept as far as `as_u64` reads them.

use vstd::prelude::*;
use crate::text::{chars_eq, chars_of};

verus! {

/// A JSON value.
pub enum Json {
    /// `null`
    Null,
    /// `true` or `false`
    Bool(bool),
    /// A number that is a non-negative integer fitting in `u64`
    UInt(u64),
    /// Any other number
    OtherNumber,
    /// A string
    Str(String),
    /// An array
    Array(Vec<Json>),
    /// An object, members in order (keys are distinct)
    Object(Vec<(String, Json)>),
}

/// The value of the first member of `m` named `key`.
pub open spec fn member(m: Seq<(String, Json)>, key: Seq<char>) -> Option<Json>
    decreases m.len(),
{
    if m.len() == 0 {
        None
    } else if m[0].0@ == key {
        Some(m[0].1)
    } else {
        member(m.drop_first(), key)
    }
}

/// The member `key` of an object (`Value::get` with a string key).
pub open spec fn field(j: Json, key: Seq<char>) -> Option<Json> {
    match j {
        Json::Object(m) => member(m@, key),
        _ => None,
    }
}

/// `j[key]`: the member, or `null` when `j` is no object or lacks it.
pub open spec fn at(j: Json, key: Seq<char>) -> Json {
    match field(j, key) {
        Some(v) => v,
        None => Json::Null,
    }
}

/// The text of a string value.
pub open spec fn str_of(j: Json) -> Option<Seq<char>> {
    match j {
        Json::Str(s) => Some(s@),
        _ => None,
    }
}

/// The number of a value that `as_u64` reads.
pub open spec fn u64_of(j: Json) -> Option<u64> {
    match j {
        Json::UInt(n) => Some(n),
        _ => None,
    }
}

/// `as_u64().unwrap_or(0)`.
pub open spec fn u64_or_zero(j: Json) -> u64 {
    match j {
        Json::UInt(n) => n,
        _ => 0,
    }
}

impl Json {
    /// The member `key` of an object.
    pub fn get(&self, key: &str) -> (r: Option<&Json>)
        ensures
            match field(*self, key@) {
                Some(v) => r == Some(&v),
                None => r is None,
            },
    {
        match self {
            Json::Object(m) => {
                let k = chars_of(key);
                assert(field(*self, key@) == member(m@, key@));
                let mut i: usize = 0;
                assert(m@.skip(0) =~= m@);
                while i < m.len()
                    invariant
                        i <= m@.len(),
                        k@ == key@,
                        field(*self, key@) == member(m@, key@),
                        member(m@, key@) == member(m@.skip(i as int), key@),
                    decreases m@.len() - i,
                {
                    assert(m@.skip(i as int)[0] == m@[i as int]);
                    assert(m@.skip(i as int).drop_first() =~= m@.skip(i + 1));
                    if chars_eq(&chars_of(m[i].0.as_str()), &k) {
                        assert(member(m@.skip(i as int), key@) == Some(m@[i as int].1));
                        return Some(&m[i].1);
                    }
                    i = i + 1;
                }
                None
            },
            _ => None,
        }
    }

    /// The text of a string value (`as_str`).
    pub fn as_str(&self) -> (r: Option<&String>)
        ensures
            match r {
                Some(s) => str_of(*self) == Some(s@),
                None => str_of(*self) is None,
            },
    {
        match self {
            Json::Str(s) => Some(s),
            _ => None,
        }
    }

    /// The number of a value that fits in `u64` (`as_u64`).
    pub fn as_u64(&self) -> (r: Option<u64>)
        ensures
            r == u64_of(*self),
    {
        match self {
            Json::UInt(n) => Some(*n),
            _ => None,
        }
    }
}

/// The text of member `key` when it is a string.
pub fn str_field<'a>(j: &'a Json, key: &str) -> (r: Option<&'a String>)
    ensures
        match r {
            Some(s) => str_of(at(*j, key@)) == Some(s@),
            None => str_of(at(*j, key@)) is None,
        },
{
    match j.get(key) {
        Some(v) => v.as_str(),
        None => None,
    }
}

/// The number in member `key` when `as_u64` reads it.
pub fn u64_field(j: &Json, key: &str) -> (r: Option<u64>)
    ensures
        r == u64_of(at(*j, key@)),
{
    match j.get(key) {
        Some(v) => v.as_u64(),
        None => None,
    }
}

/// `j[key]` as a reference, `null` when absent.
pub fn at_ref<'a>(j: &'a Json, key: &str) -> (r: &'a Json)
    ensures
        *r == at(*j, key@),
{
    match j.get(key) {
        Some(v) => v,
        None => &NULL_JSON,
    }
}

/// The `null` value.
pub const NULL_JSON: Json = Json::Null;

/// The string items of `a`, in order.
pub open spec fn strings_in(a: Seq<Json>) -> Seq<Seq<char>>
    decreases a.len(),
{
    if a.len() == 0 {
        Seq::empty()
    } else {
        let earlier = strings_in(a.drop_last());
        match str_of(a.last()) {
            Some(s) => earlier.push(s),
            None => earlier,
        }
    }
}

/// An optional `- **label:** text` line for a string member.
pub open spec fn opt_line(label: Seq<char>, v: Json) -> Seq<char> {
    match str_of(v) {
        Some(t) => label + t + "\n"@,
        None => Seq::empty(),
    }
}

} // verus!
