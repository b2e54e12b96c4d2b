//! JSON documents as plain values.
//!
//! An object keeps its members in order, and keeps a name that occurs twice
//! twice: a reader that refuses duplicates has to see them.

use vstd::prelude::*;
use vstd::string::*;

use crate::text::str_eq;

verus! {

/// What a floating-point number looks like to a reader of integers.
#[derive(Clone, Copy, Debug, PartialEq, Eq, Structural)]
pub enum FloatShape {
    /// The number one.
    One,
    /// Another finite number without a fraction.
    Integral,
    /// A fraction, an infinity or no number.
    Other,
}

/// A number.
#[derive(Clone, Copy, Debug, PartialEq, Eq, Structural)]
pub enum Number {
    Signed(i128),
    Unsigned(u128),
    Float(FloatShape),
}

/// One member of an object.
pub struct Member {
    pub name: String,
    pub value: Json,
}

/// A JSON document.
pub enum Json {
    Null,
    Bool(bool),
    Number(Number),
    String(String),
    Array(Vec<Json>),
    Object(Vec<Member>),
}

/// A JSON document in contracts.
#[verifier::ext_equal]
pub ghost enum JsonV {
    Null,
    Bool(bool),
    Number(Number),
    String(Seq<char>),
    Array(Seq<JsonV>),
    Object(Seq<MemberV>),
}

/// One member of an object in contracts.
#[verifier::ext_equal]
pub ghost struct MemberV {
    pub name: Seq<char>,
    pub value: JsonV,
}

impl Member {
    /// The member in contracts.
    pub open spec fn view(&self) -> MemberV
        decreases self,
    {
        MemberV { name: self.name@, value: self.value.view() }
    }
}

impl Json {
    /// The document in contracts.
    pub open spec fn view(&self) -> JsonV
        decreases self,
    {
        match self {
            Json::Null => JsonV::Null,
            Json::Bool(value) => JsonV::Bool(*value),
            Json::Number(value) => JsonV::Number(*value),
            Json::String(value) => JsonV::String(value@),
            Json::Array(values) => JsonV::Array(
                Seq::new(
                    values@.len(),
                    |i: int|
                        if 0 <= i < values@.len() {
                            values@[i].view()
                        } else {
                            arbitrary()
                        },
                ),
            ),
            Json::Object(members) => JsonV::Object(
                Seq::new(
                    members@.len(),
                    |i: int|
                        if 0 <= i < members@.len() {
                            members@[i].view()
                        } else {
                            arbitrary()
                        },
                ),
            ),
        }
    }
}

/// The views of a list of documents.
pub open spec fn views(values: Seq<Json>) -> Seq<JsonV> {
    values.map_values(|value: Json| value@)
}

/// The views of a list of members.
pub open spec fn member_views(members: Seq<Member>) -> Seq<MemberV> {
    members.map_values(|member: Member| member@)
}

/// A list's view lists the views of its items.
pub proof fn lemma_views(values: Vec<Json>, members: Vec<Member>)
    ensures
        Json::Array(values)@ == JsonV::Array(views(values@)),
        Json::Object(members)@ == JsonV::Object(member_views(members@)),
{
    assert(Json::Array(values)@->Array_0 =~= views(values@));
    assert(Json::Object(members)@->Object_0 =~= member_views(members@));
}

/// Build one member.
pub fn member(name: &str, value: Json) -> (member: Member)
    ensures
        member@ == (MemberV { name: name@, value: value@ }),
{
    Member { name: name.to_owned(), value }
}

/// Build a string document.
pub fn string(value: &str) -> (document: Json)
    ensures
        document@ == JsonV::String(value@),
{
    Json::String(value.to_owned())
}

/// Build an array of strings.
pub fn strings(values: &[&str]) -> (document: Json)
    ensures
        document@ == JsonV::Array(values@.map_values(|value: &str| JsonV::String(value@))),
{
    let mut items: Vec<Json> = Vec::new();
    let mut index: usize = 0;
    while index < values.len()
        invariant
            index <= values@.len(),
            items@.len() == index,
            forall|i: int|
                0 <= i < index ==> (#[trigger] items@[i])@ == JsonV::String(values@[i]@),
        decreases values@.len() - index,
    {
        items.push(string(values[index]));
        index += 1;
    }
    proof {
        lemma_views(items, arbitrary());
        assert(views(items@) =~= values@.map_values(|value: &str| JsonV::String(value@)));
    }
    Json::Array(items)
}

/// Build an object of members.
pub fn object(members: Vec<Member>) -> (document: Json)
    ensures
        document@ == JsonV::Object(member_views(members@)),
{
    proof {
        lemma_views(arbitrary(), members);
    }
    Json::Object(members)
}

/// Build an array of documents.
pub fn array(values: Vec<Json>) -> (document: Json)
    ensures
        document@ == JsonV::Array(views(values@)),
{
    proof {
        lemma_views(values, arbitrary());
    }
    Json::Array(values)
}

impl Json {
    /// Copy a document.
    pub fn copy(&self) -> (copy: Json)
        ensures
            copy@ == self@,
        decreases self,
    {
        match self {
            Json::Null => Json::Null,
            Json::Bool(value) => Json::Bool(*value),
            Json::Number(value) => Json::Number(*value),
            Json::String(value) => Json::String(value.clone()),
            Json::Array(values) => {
                proof {
                    lemma_views(*values, arbitrary());
                }
                array(copy_values(values))
            },
            Json::Object(members) => {
                proof {
                    lemma_views(arbitrary(), *members);
                }
                object(copy_members(members))
            },
        }
    }

    /// Report whether two documents are one document, member by member.
    pub fn same(&self, other: &Json) -> (same: bool)
        ensures
            same == (self@ == other@),
        decreases self,
    {
        match (self, other) {
            (Json::Null, Json::Null) => true,
            (Json::Bool(left), Json::Bool(right)) => *left == *right,
            (Json::Number(left), Json::Number(right)) => *left == *right,
            (Json::String(left), Json::String(right)) => str_eq(left.as_str(), right.as_str()),
            (Json::Array(left), Json::Array(right)) => {
                proof {
                    lemma_views(*left, arbitrary());
                    lemma_views(*right, arbitrary());
                }
                same_values(left, right)
            },
            (Json::Object(left), Json::Object(right)) => {
                proof {
                    lemma_views(arbitrary(), *left);
                    lemma_views(arbitrary(), *right);
                }
                same_members(left, right)
            },
            _ => false,
        }
    }
}

/// Copy a list of documents.
fn copy_values(values: &Vec<Json>) -> (copies: Vec<Json>)
    ensures
        views(copies@) == views(values@),
    decreases values,
{
    let mut copies: Vec<Json> = Vec::new();
    let mut index: usize = 0;
    while index < values.len()
        invariant
            index <= values@.len(),
            copies@.len() == index,
            forall|i: int| 0 <= i < index ==> (#[trigger] copies@[i])@ == values@[i]@,
        decreases values@.len() - index,
    {
        copies.push(values[index].copy());
        index += 1;
    }
    assert(views(copies@) =~= views(values@));
    copies
}

/// Copy a list of members.
fn copy_members(members: &Vec<Member>) -> (copies: Vec<Member>)
    ensures
        member_views(copies@) == member_views(members@),
    decreases members,
{
    let mut copies: Vec<Member> = Vec::new();
    let mut index: usize = 0;
    while index < members.len()
        invariant
            index <= members@.len(),
            copies@.len() == index,
            forall|i: int| 0 <= i < index ==> (#[trigger] copies@[i])@ == members@[i]@,
        decreases members@.len() - index,
    {
        let value = members[index].value.copy();
        copies.push(Member { name: members[index].name.clone(), value });
        index += 1;
    }
    assert(member_views(copies@) =~= member_views(members@));
    copies
}

/// Report whether two lists of documents agree.
fn same_values(left: &Vec<Json>, right: &Vec<Json>) -> (same: bool)
    ensures
        same == (views(left@) == views(right@)),
    decreases left,
{
    if left.len() != right.len() {
        assert(views(left@).len() != views(right@).len());
        return false;
    }
    let mut index: usize = 0;
    while index < left.len()
        invariant
            index <= left@.len(),
            left@.len() == right@.len(),
            forall|i: int| 0 <= i < index ==> (#[trigger] left@[i])@ == right@[i]@,
        decreases left@.len() - index,
    {
        if !left[index].same(&right[index]) {
            assert(views(left@)[index as int] != views(right@)[index as int]);
            return false;
        }
        index += 1;
    }
    assert(views(left@) =~= views(right@));
    true
}

/// Report whether two lists of members agree.
fn same_members(left: &Vec<Member>, right: &Vec<Member>) -> (same: bool)
    ensures
        same == (member_views(left@) == member_views(right@)),
    decreases left,
{
    if left.len() != right.len() {
        assert(member_views(left@).len() != member_views(right@).len());
        return false;
    }
    let mut index: usize = 0;
    while index < left.len()
        invariant
            index <= left@.len(),
            left@.len() == right@.len(),
            forall|i: int| 0 <= i < index ==> (#[trigger] left@[i])@ == right@[i]@,
        decreases left@.len() - index,
    {
        if !str_eq(left[index].name.as_str(), right[index].name.as_str())
            || !left[index].value.same(&right[index].value) {
            assert(member_views(left@)[index as int] != member_views(right@)[index as int]);
            return false;
        }
        index += 1;
    }
    assert(member_views(left@) =~= member_views(right@));
    true
}

} // verus!
