//! JSON as a page embeds it: structured data and JavaScript globals.
//!
//! A number keeps the text it is written with; reading it as a price is the
//! caller's business. An object keeps its members in order, and a key names
//! its first member.
use crate::text::{chars_of, parse_digits_bounded, parse_u64_digits, str_eq};
use vstd::prelude::*;

verus! {

/// A JSON value.
#[derive(Debug)]
pub enum Json {
    Null,
    Bool(bool),
    /// A number, as its text.
    Number(String),
    Str(String),
    Array(Vec<Json>),
    Object(Vec<(String, Json)>),
}

/// The value of the first member named `key`.
pub open spec fn entry_of(entries: Seq<(String, Json)>, key: Seq<char>) -> Option<Json>
    decreases entries.len(),
{
    if entries.len() == 0 {
        None
    } else if entries[0].0@ == key {
        Some(entries[0].1)
    } else {
        entry_of(entries.drop_first(), key)
    }
}

/// The member `key` of an object; nothing for anything else.
pub open spec fn member(v: Json, key: Seq<char>) -> Option<Json> {
    match v {
        Json::Object(entries) => entry_of(entries@, key),
        _ => None,
    }
}

/// The member `key` of a value that may be missing.
pub open spec fn member_of(v: Option<Json>, key: Seq<char>) -> Option<Json> {
    match v {
        Some(x) => member(x, key),
        None => None,
    }
}

/// A value's text, when it is a string.
pub open spec fn text_of(v: Option<Json>) -> Option<Seq<char>> {
    match v {
        Some(Json::Str(s)) => Some(s@),
        _ => None,
    }
}

/// A value as an unsigned integer, when it is a number written as one that
/// fits in a `u64`.
pub open spec fn u64_of(v: Option<Json>) -> Option<u64> {
    match v {
        Some(Json::Number(t)) => if crate::text::all_digits(t@) {
            parse_u64_digits(t@)
        } else {
            None
        },
        _ => None,
    }
}

/// A value as a boolean, when it is one.
pub open spec fn bool_of(v: Option<Json>) -> Option<bool> {
    match v {
        Some(Json::Bool(b)) => Some(b),
        _ => None,
    }
}

impl Json {
    /// The member `key`, when this is an object that has one.
    pub fn get(&self, key: &str) -> (r: Option<&Json>)
        ensures
            match member(*self, key@) {
                Some(x) => r matches Some(y) && *y == x,
                None => r is None,
            },
    {
        match self {
            Json::Object(entries) => {
                let mut i: usize = 0;
                assert(entries@.skip(0) =~= entries@);
                while i < entries.len()
                    invariant
                        i <= entries.len(),
                        member(*self, key@) == entry_of(entries@, key@),
                        entry_of(entries@.skip(i as int), key@) == entry_of(entries@, key@),
                    decreases entries.len() - i,
                {
                    assert(entries@.skip(i as int)[0] == entries@[i as int]);
                    assert(entries@.skip(i as int).drop_first() =~= entries@.skip(i + 1));
                    if str_eq(entries[i].0.as_str(), key) {
                        assert(entry_of(entries@.skip(i as int), key@) == Some(entries@[i as int].1));
                        return Some(&entries[i].1);
                    }
                    i = i + 1;
                }
                assert(entries@.skip(i as int) =~= Seq::<(String, Json)>::empty());
                None
            },
            _ => None,
        }
    }

    /// This value's text, when it is a string.
    pub fn as_str(&self) -> (r: Option<&str>)
        ensures
            match text_of(Some(*self)) {
                Some(t) => r matches Some(s) && s@ == t,
                None => r is None,
            },
    {
        match self {
            Json::Str(s) => Some(s.as_str()),
            _ => None,
        }
    }

    /// This value as an unsigned integer, when it is a number written as
    /// one that fits in a `u64`.
    pub fn as_u64(&self) -> (r: Option<u64>)
        ensures
            r == u64_of(Some(*self)),
    {
        match self {
            Json::Number(t) => {
                let v = chars_of(t.as_str());
                let mut i: usize = 0;
                while i < v.len()
                    invariant
                        i <= v.len(),
                        v@ == t@,
                        u64_of(Some(*self)) == (if crate::text::all_digits(t@) {
                            parse_u64_digits(t@)
                        } else {
                            None
                        }),
                        crate::text::all_digits(v@.take(i as int)),
                    decreases v.len() - i,
                {
                    if !crate::text::digit(v[i]) {
                        assert(!crate::text::all_digits(t@)) by {
                            assert(t@[i as int] == v@[i as int]);
                        }
                        return None;
                    }
                    assert(v@.take(i + 1) =~= v@.take(i as int).push(v@[i as int]));
                    i = i + 1;
                }
                assert(v@.take(v.len() as int) =~= v@);
                assert(v@.subrange(0, v.len() as int) =~= v@);
                parse_digits_bounded(&v, 0, v.len(), 0xffff_ffff_ffff_ffff)
            },
            _ => None,
        }
    }

    /// This value as a boolean, when it is one.
    pub fn as_bool(&self) -> (r: Option<bool>)
        ensures
            r == bool_of(Some(*self)),
    {
        match self {
            Json::Bool(b) => Some(*b),
            _ => None,
        }
    }
}

} // verus!
