//! A JSON document as plain values, and lookups in it.

use vstd::prelude::*;
use crate::url::decimal_text;

verus! {

/// A JSON number: its integer value where it is an integer that fits in
/// `i64`, and its decimal text.
#[derive(Debug)]
pub struct JsonNumber {
    pub integer: Option<i64>,
    pub text: String,
}

/// A JSON value. An object keeps its members in document order.
#[derive(Debug)]
pub enum Json {
    Null,
    Bool(bool),
    Number(JsonNumber),
    Text(String),
    Array(Vec<Json>),
    Object(Vec<(String, Json)>),
}

impl JsonNumber {
    /// The number `n`.
    pub fn from_i64(n: i64) -> (r: JsonNumber)
        ensures
            r.integer == Some(n),
            r.text@ == crate::url::decimal(n as int),
    {
        JsonNumber { integer: Some(n), text: decimal_text(n) }
    }

    /// A copy of this number.
    pub fn copied(&self) -> (r: JsonNumber)
        ensures
            r == *self,
    {
        JsonNumber { integer: self.integer, text: self.text.clone() }
    }
}

/// The value of the first member named `key`, if any.
pub open spec fn field_of(members: Seq<(String, Json)>, key: Seq<char>) -> Option<Json>
    decreases members.len(),
{
    if members.len() == 0 {
        None
    } else if members[0].0@ == key {
        Some(members[0].1)
    } else {
        field_of(members.drop_first(), key)
    }
}

/// The member `key` of an object; nothing for any other value.
pub open spec fn member(j: Json, key: Seq<char>) -> Option<Json> {
    match j {
        Json::Object(members) => field_of(members@, key),
        _ => None,
    }
}

/// The first item of a non-empty array; nothing for any other value.
pub open spec fn first_item(j: Json) -> Option<Json> {
    match j {
        Json::Array(items) => if items@.len() > 0 { Some(items@[0]) } else { None },
        _ => None,
    }
}

/// The items of an array; nothing for any other value.
pub open spec fn items_of(j: Json) -> Option<Seq<Json>> {
    match j {
        Json::Array(items) => Some(items@),
        _ => None,
    }
}

proof fn lemma_field_of_skip(members: Seq<(String, Json)>, i: int, key: Seq<char>)
    requires
        0 <= i < members.len(),
        members[i].0@ != key,
    ensures
        field_of(members.subrange(i, members.len() as int), key) == field_of(
            members.subrange(i + 1, members.len() as int),
            key,
        ),
{
    assert(members.subrange(i, members.len() as int).drop_first() =~= members.subrange(
        i + 1,
        members.len() as int,
    ));
}

/// Looks up member `key` of `j`, as `member` says.
pub fn get_member<'a>(j: &'a Json, key: &str) -> (r: Option<&'a Json>)
    ensures
        r matches Some(v) ==> member(*j, key@) == Some(*v),
        r is None ==> member(*j, key@) is None,
{
    let members = match j {
        Json::Object(members) => members,
        _ => return None,
    };
    let wanted = String::from_str(key);
    let mut i: usize = 0;
    assert(members@.subrange(0, members@.len() as int) =~= members@);
    while i < members.len()
        invariant
            0 <= i <= members@.len(),
            wanted@ == key@,
            member(*j, key@) == field_of(members@, key@),
            field_of(members@.subrange(i as int, members@.len() as int), key@) == field_of(members@, key@),
        decreases members@.len() - i,
    {
        let entry = &members[i];
        if entry.0 == wanted {
            return Some(&entry.1);
        }
        proof {
            lemma_field_of_skip(members@, i as int, key@);
        }
        i = i + 1;
    }
    None
}

} // verus!
