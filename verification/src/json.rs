//! JSON values as the proxy reads them.
use vstd::prelude::*;

use crate::text::same_text;

verus! {

/// A JSON number, which the proxy only carries through.
#[verifier::external_type_specification]
#[verifier::external_body]
pub struct ExNumber(serde_json::Number);

/// A JSON value.
#[derive(Debug, PartialEq)]
pub enum Json {
    Null,
    Bool(bool),
    Number(serde_json::Number),
    Text(String),
    Array(Vec<Json>),
    Object(Vec<(String, Json)>),
}

/// The first member called `name` among the members of an object.
pub open spec fn member(members: Seq<(String, Json)>, name: Seq<char>) -> Option<Json>
    decreases members.len(),
{
    if members.len() == 0 {
        None
    } else if members[0].0@ == name {
        Some(members[0].1)
    } else {
        member(members.drop_first(), name)
    }
}

/// The member called `name`, where `value` is an object that has one.
pub open spec fn json_get(value: Json, name: Seq<char>) -> Option<Json> {
    match value {
        Json::Object(members) => member(members@, name),
        _ => None,
    }
}

/// The text of `value`, where it is a text.
pub open spec fn json_text(value: Json) -> Option<Seq<char>> {
    match value {
        Json::Text(text) => Some(text@),
        _ => None,
    }
}

/// The items of `value`, where it is an array.
pub open spec fn json_items(value: Json) -> Option<Seq<Json>> {
    match value {
        Json::Array(items) => Some(items@),
        _ => None,
    }
}

impl Json {
    /// The member called `name`, where this is an object that has one.
    pub fn get(&self, name: &str) -> (found: Option<&Json>)
        ensures
            match found {
                Some(value) => json_get(*self, name@) == Some(*value),
                None => json_get(*self, name@) is None,
            },
    {
        match self {
            Json::Object(members) => {
                let mut i: usize = 0;
                proof {
                    assert(members@.skip(0) =~= members@);
                }
                while i < members.len()
                    invariant
                        i <= members.len(),
                        json_get(*self, name@) == member(members@.skip(i as int), name@),
                    decreases members.len() - i,
                {
                    proof {
                        assert(members@.skip(i as int).drop_first() =~= members@.skip(i + 1));
                    }
                    if same_text(members[i].0.as_str(), name) {
                        return Some(&members[i].1);
                    }
                    i = i + 1;
                }
                None
            },
            _ => None,
        }
    }

    /// The text, where this is one.
    pub fn as_str(&self) -> (found: Option<&str>)
        ensures
            match found {
                Some(text) => json_text(*self) == Some(text@),
                None => json_text(*self) is None,
            },
    {
        match self {
            Json::Text(text) => Some(text.as_str()),
            _ => None,
        }
    }

    /// The items, where this is an array.
    pub fn as_array(&self) -> (found: Option<&Vec<Json>>)
        ensures
            match found {
                Some(items) => json_items(*self) == Some(items@),
                None => json_items(*self) is None,
            },
    {
        match self {
            Json::Array(items) => Some(items),
            _ => None,
        }
    }
}

/// A member is found by its name, at whatever position it stands. `position` is where it does;
/// of members of the same name it is the first. Nothing is found where no member has the name,
/// nor in anything but an object.
pub proof fn member_is_found_by_its_name(value: Json, name: Seq<char>) -> (position: int)
    ensures
        match json_get(value, name) {
            Some(found) => {
                &&& value matches Json::Object(members)
                &&& 0 <= position < members@.len()
                &&& members@[position].0@ == name
                &&& members@[position].1 == found
                &&& forall|i: int| 0 <= i < position ==> (#[trigger] members@[i]).0@ != name
            },
            None => value matches Json::Object(members) ==> forall|i: int|
                0 <= i < members@.len() ==> (#[trigger] members@[i]).0@ != name,
        },
{
    match value {
        Json::Object(members) => lemma_member(members@, name),
        _ => 0,
    }
}

/// Where the first member called `name` stands.
proof fn lemma_member(members: Seq<(String, Json)>, name: Seq<char>) -> (position: int)
    ensures
        match member(members, name) {
            Some(found) => {
                &&& 0 <= position < members.len()
                &&& members[position].0@ == name
                &&& members[position].1 == found
                &&& forall|i: int| 0 <= i < position ==> (#[trigger] members[i]).0@ != name
            },
            None => forall|i: int| 0 <= i < members.len() ==> (#[trigger] members[i]).0@ != name,
        },
    decreases members.len(),
{
    if members.len() == 0 || members[0].0@ == name {
        0
    } else {
        let rest = members.drop_first();
        let position = lemma_member(rest, name) + 1;
        assert forall|i: int|
            0 <= i < members.len() && (member(members, name) is Some ==> i < position) implies (
        #[trigger] members[i]).0@ != name by {
            if i > 0 {
                assert(rest[i - 1] == members[i]);
            }
        }
        position
    }
}

/// Texts have a text, their own, and arrays have items, their own; other values have neither.
pub proof fn values_are_told_apart(value: Json)
    ensures
        match value {
            Json::Text(text) => json_text(value) == Some(text@) && json_items(value) is None,
            Json::Array(items) => json_items(value) == Some(items@) && json_text(value) is None,
            _ => json_text(value) is None && json_items(value) is None,
        },
{
}

} // verus!
