//! JSON documents, as far as the metrics are read from them.

use crate::text::text_eq;
use vstd::prelude::*;
use vstd::string::*;

verus! {

/// A JSON value. A number is held as it is written.
#[derive(Debug)]
pub enum JsonValue {
    Null,
    Bool(bool),
    Number(String),
    Text(String),
    Array(Vec<JsonValue>),
    Object(Vec<(String, JsonValue)>),
}

/// The value of the first of `members` with the name `key`.
pub open spec fn first_member(members: Seq<(String, JsonValue)>, key: Seq<char>) -> Option<
    JsonValue,
>
    decreases members.len(),
{
    if members.len() == 0 {
        None
    } else if members[0].0@ == key {
        Some(members[0].1)
    } else {
        first_member(members.drop_first(), key)
    }
}

impl JsonValue {
    /// The member `key` of an object.
    pub open spec fn member(self, key: Seq<char>) -> Option<JsonValue> {
        match self {
            JsonValue::Object(members) => first_member(members@, key),
            _ => None,
        }
    }

    /// The characters of a string.
    pub open spec fn text(self) -> Option<Seq<char>> {
        match self {
            JsonValue::Text(text) => Some(text@),
            _ => None,
        }
    }

    /// The elements of an array.
    pub open spec fn elements(self) -> Option<Seq<JsonValue>> {
        match self {
            JsonValue::Array(elements) => Some(elements@),
            _ => None,
        }
    }

    /// The member `key` of an object; other values have none.
    pub fn get(&self, key: &str) -> (value: Option<&JsonValue>)
        ensures
            value is Some <==> self.member(key@) is Some,
            value matches Some(found) ==> self.member(key@) == Some(*found),
    {
        match self {
            JsonValue::Object(members) => {
                let mut i: usize = 0;
                assert(members@.skip(0) =~= members@);
                while i < members.len()
                    invariant
                        self.member(key@) == first_member(members@, key@),
                        i <= members@.len(),
                        first_member(members@, key@) == first_member(members@.skip(i as int), key@),
                    decreases members@.len() - i,
                {
                    assert(members@.skip(i as int).drop_first() =~= members@.skip(i + 1));
                    if text_eq(members[i].0.as_str(), key) {
                        return Some(&members[i].1);
                    }
                    i = i + 1;
                }
                None
            },
            _ => None,
        }
    }

    /// The text of a string; other values have none.
    pub fn as_str(&self) -> (text: Option<&str>)
        ensures
            self.text() == (match text {
                Some(found) => Some(found@),
                None => None,
            }),
    {
        match self {
            JsonValue::Text(text) => Some(text.as_str()),
            _ => None,
        }
    }

    /// The elements of an array; other values have none.
    pub fn as_array(&self) -> (elements: Option<&Vec<JsonValue>>)
        ensures
            self.elements() == (match elements {
                Some(found) => Some(found@),
                None => None,
            }),
    {
        match self {
            JsonValue::Array(elements) => Some(elements),
            _ => None,
        }
    }
}

proof fn lemma_first_member(members: Seq<(String, JsonValue)>, key: Seq<char>, at: int)
    requires
        0 <= at < members.len(),
        members[at].0@ == key,
        forall|i: int| 0 <= i < at ==> (#[trigger] members[i]).0@ != key,
    ensures
        first_member(members, key) == Some(members[at].1),
    decreases at,
{
    if at > 0 {
        let rest = members.drop_first();
        assert(members[0].0@ != key);
        assert forall|i: int| 0 <= i < at - 1 implies (#[trigger] rest[i]).0@ != key by {
            assert(rest[i] == members[i + 1]);
        }
        lemma_first_member(rest, key, at - 1);
    }
}

proof fn lemma_no_member(members: Seq<(String, JsonValue)>, key: Seq<char>)
    requires
        forall|i: int| 0 <= i < members.len() ==> (#[trigger] members[i]).0@ != key,
    ensures
        first_member(members, key) is None,
    decreases members.len(),
{
    if members.len() > 0 {
        let rest = members.drop_first();
        assert(members[0].0@ != key);
        assert forall|i: int| 0 <= i < rest.len() implies (#[trigger] rest[i]).0@ != key by {
            assert(rest[i] == members[i + 1]);
        }
        lemma_no_member(rest, key);
    }
}

/// A member is found under its own name, whatever else the object holds, and the first
/// of a name is the one that is found.
pub proof fn a_member_is_found_by_its_name(members: Vec<(String, JsonValue)>, at: int)
    requires
        0 <= at < members@.len(),
        forall|i: int| 0 <= i < at ==> (#[trigger] members@[i]).0@ != members@[at].0@,
    ensures
        JsonValue::Object(members).member(members@[at].0@) == Some(members@[at].1),
{
    lemma_first_member(members@, members@[at].0@, at);
}

/// Nothing is found under a name that no member has, nor in a value that is no object.
pub proof fn nothing_else_is_found(value: JsonValue, key: Seq<char>)
    requires
        value matches JsonValue::Object(members) ==> forall|i: int|
            0 <= i < members@.len() ==> (#[trigger] members@[i]).0@ != key,
    ensures
        value.member(key) is None,
{
    if let JsonValue::Object(members) = value {
        lemma_no_member(members@, key);
    }
}

/// A string has its text and an array its elements; no other value has any.
pub proof fn values_are_what_they_are(value: JsonValue)
    ensures
        value.text() == (match value {
            JsonValue::Text(text) => Some(text@),
            JsonValue::Null
            | JsonValue::Bool(_)
            | JsonValue::Number(_)
            | JsonValue::Array(_)
            | JsonValue::Object(_) => None,
        }),
        value.elements() == (match value {
            JsonValue::Array(elements) => Some(elements@),
            JsonValue::Null
            | JsonValue::Bool(_)
            | JsonValue::Number(_)
            | JsonValue::Text(_)
            | JsonValue::Object(_) => None,
        }),
{
}

} // verus!
