//! The JSON data model that wire messages are read from and written to.
//!
//! The grammar itself is `serde_json`'s: text becomes a [`Json`] tree and a
//! tree becomes text through two trusted functions at the end of this file.
//! Everything the protocol does with a document happens on the tree.

use crate::framing::has_frame;
use vstd::prelude::*;

verus! {

/// `serde_json::Number`, a JSON number. Nothing is known of what is in it.
#[verifier::external_type_specification]
#[verifier::external_body]
pub struct ExNumber(serde_json::Number);

/// `serde_json::Value`, a JSON document as `serde_json` holds it. Nothing is
/// known of what is in it: it only passes between the trusted functions at
/// the end of this file.
#[verifier::external_type_specification]
#[verifier::external_body]
pub struct ExValue(serde_json::Value);

/// `serde_json::Number` derives `Clone` over its one field, which is plain
/// data: the copy equals the number it was made from.
pub assume_specification[ <serde_json::Number as Clone>::clone ](
    number: &serde_json::Number,
) -> (copy: serde_json::Number)
    ensures
        copy == *number,
;

/// A JSON document as a tree of plain values.
#[derive(Debug, PartialEq, Eq)]
pub enum Json {
    /// `null`.
    Null,
    /// `true` or `false`.
    Bool(bool),
    /// A number that is an integer within the range of `i64`.
    Int(i64),
    /// Any other number: a fraction, an exponent, or an integer beyond `i64`.
    /// It is carried through untouched.
    Real(serde_json::Number),
    /// A string.
    Str(String),
    /// An array, in document order.
    Array(Vec<Json>),
    /// An object, as its members in the order the parser yields them.
    Object(Vec<(String, Json)>),
}

/// What a [`Json`] document holds, as mathematical values.
pub enum JsonValue {
    Null,
    Bool(bool),
    Int(i64),
    Real(serde_json::Number),
    Str(Seq<char>),
    Array(Seq<JsonValue>),
    Object(Seq<(Seq<char>, JsonValue)>),
}

impl View for Json {
    type V = JsonValue;

    open spec fn view(&self) -> JsonValue
        decreases self,
    {
        match self {
            Json::Null => JsonValue::Null,
            Json::Bool(flag) => JsonValue::Bool(*flag),
            Json::Int(whole) => JsonValue::Int(*whole),
            Json::Real(number) => JsonValue::Real(*number),
            Json::Str(text) => JsonValue::Str(text@),
            Json::Array(items) => JsonValue::Array(
                Seq::new(
                    items@.len(),
                    |i: int|
                        if 0 <= i < items@.len() {
                            items@[i].view()
                        } else {
                            JsonValue::Null
                        },
                ),
            ),
            Json::Object(members) => JsonValue::Object(
                Seq::new(
                    members@.len(),
                    |i: int|
                        if 0 <= i < members@.len() {
                            (members@[i].0@, members@[i].1.view())
                        } else {
                            (Seq::empty(), JsonValue::Null)
                        },
                ),
            ),
        }
    }
}

/// The value of the member named `key` among `members`: the last one of
/// that name, as in a map that was filled in order.
pub open spec fn last_member(members: Seq<(Seq<char>, JsonValue)>, key: Seq<char>) -> Option<
    JsonValue,
>
    decreases members.len(),
{
    if members.len() == 0 {
        None
    } else if members.last().0 == key {
        Some(members.last().1)
    } else {
        last_member(members.drop_last(), key)
    }
}

impl JsonValue {
    /// The member named `key`, where this is an object that has one.
    pub open spec fn member(self, key: Seq<char>) -> Option<JsonValue> {
        match self {
            JsonValue::Object(members) => last_member(members, key),
            _ => None,
        }
    }

    /// The number, where this is an integer that fits `i32`.
    pub open spec fn as_i32(self) -> Option<i32> {
        match self {
            JsonValue::Int(whole) if i32::MIN <= whole <= i32::MAX => Some(whole as i32),
            _ => None,
        }
    }

    /// The text, where this is a string.
    pub open spec fn as_text(self) -> Option<Seq<char>> {
        match self {
            JsonValue::Str(text) => Some(text),
            _ => None,
        }
    }

    /// The elements, where this is an array.
    pub open spec fn as_items(self) -> Option<Seq<JsonValue>> {
        match self {
            JsonValue::Array(items) => Some(items),
            _ => None,
        }
    }

    /// The members, where this is an object.
    pub open spec fn as_members(self) -> Option<Seq<(Seq<char>, JsonValue)>> {
        match self {
            JsonValue::Object(members) => Some(members),
            _ => None,
        }
    }
}

/// `last_member` finds a member exactly when some member has that name, and
/// then it is the one behind which no other member has it.
pub proof fn lemma_last_member(members: Seq<(Seq<char>, JsonValue)>, key: Seq<char>)
    ensures
        last_member(members, key) is None <==> forall|i: int|
            0 <= i < members.len() ==> (#[trigger] members[i]).0 != key,
        last_member(members, key) is Some ==> exists|i: int|
            0 <= i < members.len() && (#[trigger] members[i]) == (
                key,
                last_member(members, key)->Some_0,
            ) && forall|j: int| i < j < members.len() ==> (#[trigger] members[j]).0 != key,
    decreases members.len(),
{
    if members.len() == 0 {
    } else if members.last().0 == key {
        let i = members.len() - 1;
        assert(members[i] == (key, last_member(members, key)->Some_0));
    } else {
        let front = members.drop_last();
        lemma_last_member(front, key);
        assert forall|i: int| 0 <= i < front.len() implies front[i] == members[i] by {}
        if last_member(front, key) is Some {
            let i = choose|i: int|
                0 <= i < front.len() && (#[trigger] front[i]) == (
                    key,
                    last_member(front, key)->Some_0,
                ) && forall|j: int| i < j < front.len() ==> (#[trigger] front[j]).0 != key;
            assert(members[i] == (key, last_member(members, key)->Some_0));
            assert forall|j: int| i < j < members.len() implies (#[trigger] members[j]).0
                != key by {
                if j < front.len() {
                    assert(front[j].0 != key);
                }
            }
        } else {
            assert forall|i: int| 0 <= i < members.len() implies (#[trigger] members[i]).0
                != key by {
                if i < front.len() {
                    assert(front[i].0 != key);
                }
            }
        }
    }
}

/// Spells out the value of an array and of an object node by node.
pub proof fn lemma_view_unfold(json: Json)
    ensures
        json matches Json::Array(items) ==> json@ == JsonValue::Array(views_of(items@)),
        json matches Json::Object(members) ==> json@ == JsonValue::Object(
            member_views_of(members@),
        ),
{
    reveal_with_fuel(<Json as View>::view, 2);
    match json {
        Json::Array(items) => {
            assert(json@->Array_0 =~= views_of(items@));
        },
        Json::Object(members) => {
            assert(json@->Object_0 =~= member_views_of(members@));
        },
        _ => {},
    }
}

impl Json {
    /// Builds a string node from a string slice.
    pub fn text(text: &str) -> (json: Json)
        ensures
            json@ == JsonValue::Str(text@),
    {
        Json::Str(text.to_owned())
    }

    /// The member named `key`, where this is an object that has one.
    pub fn get(&self, key: &str) -> (found: Option<&Json>)
        ensures
            match found {
                Some(json) => self@.member(key@) == Some(json@),
                None => self@.member(key@) is None,
            },
    {
        match self {
            Json::Object(members) => {
                let wanted = key.to_owned();
                let ghost all = self@->Object_0;
                proof {
                    lemma_view_unfold(*self);
                }
                let mut i = members.len();
                assert(all.take(i as int) == all);
                while i > 0
                    invariant
                        i <= members.len(),
                        wanted@ == key@,
                        all.len() == members.len(),
                        forall|k: int|
                            0 <= k < members.len() ==> all[k] == (
                                members@[k].0@,
                                members@[k].1@,
                            ),
                        self@ == JsonValue::Object(all),
                        last_member(all, key@) == last_member(all.take(i as int), key@),
                    decreases i,
                {
                    i -= 1;
                    let ghost upto = all.take(i + 1);
                    assert(upto.last() == all[i as int]);
                    assert(upto.drop_last() == all.take(i as int));
                    if members[i].0 == wanted {
                        return Some(&members[i].1);
                    }
                }
                assert(all.take(0).len() == 0);
                None
            },
            _ => None,
        }
    }

    /// The number, where this is an integer that fits `i32`.
    pub fn as_i32(&self) -> (number: Option<i32>)
        ensures
            number == self@.as_i32(),
    {
        match self {
            Json::Int(whole) => {
                if -2147483648 <= *whole && *whole <= 2147483647 {
                    Some(*whole as i32)
                } else {
                    None
                }
            },
            _ => None,
        }
    }

    /// The text, where this is a string.
    pub fn as_text(&self) -> (text: Option<&String>)
        ensures
            match text {
                Some(text) => self@.as_text() == Some(text@),
                None => self@.as_text() is None,
            },
    {
        match self {
            Json::Str(text) => Some(text),
            _ => None,
        }
    }

    /// The elements, where this is an array.
    pub fn as_items(&self) -> (items: Option<&Vec<Json>>)
        ensures
            match items {
                Some(items) => self@.as_items() == Some(views_of(items@)),
                None => self@.as_items() is None,
            },
    {
        match self {
            Json::Array(items) => {
                proof {
                    lemma_view_unfold(*self);
                }
                Some(items)
            },
            _ => None,
        }
    }

    /// A copy of this document.
    pub fn duplicate(&self) -> (copy: Json)
        ensures
            copy@ == self@,
        decreases self,
    {
        proof {
            lemma_view_unfold(*self);
        }
        match self {
            Json::Null => Json::Null,
            Json::Bool(flag) => Json::Bool(*flag),
            Json::Int(whole) => Json::Int(*whole),
            Json::Real(number) => Json::Real(number.clone()),
            Json::Str(text) => Json::Str(text.clone()),
            Json::Array(items) => {
                let mut copies: Vec<Json> = Vec::new();
                let mut i: usize = 0;
                while i < items.len()
                    invariant
                        i <= items.len(),
                        *self == Json::Array(*items),
                        copies@.len() == i,
                        forall|k: int| 0 <= k < i ==> copies@[k]@ == items@[k]@,
                    decreases items.len() - i,
                {
                    proof {
                        vstd::std_specs::vec::axiom_vec_index_decreases(*items, i as int);
                        assert(self->Array_0 == *items);
                    }
                    copies.push(items[i].duplicate());
                    i += 1;
                }
                let copy = Json::Array(copies);
                proof {
                    lemma_view_unfold(copy);
                    assert(views_of(copies@) =~= views_of(items@));
                }
                copy
            },
            Json::Object(members) => {
                let mut copies: Vec<(String, Json)> = Vec::new();
                let mut i: usize = 0;
                while i < members.len()
                    invariant
                        i <= members.len(),
                        *self == Json::Object(*members),
                        copies@.len() == i,
                        forall|k: int|
                            0 <= k < i ==> copies@[k].0@ == members@[k].0@ && copies@[k].1@
                                == members@[k].1@,
                    decreases members.len() - i,
                {
                    proof {
                        vstd::std_specs::vec::axiom_vec_index_decreases(*members, i as int);
                        assert(self->Object_0 == *members);
                    }
                    copies.push((members[i].0.clone(), members[i].1.duplicate()));
                    i += 1;
                }
                let copy = Json::Object(copies);
                proof {
                    lemma_view_unfold(copy);
                    assert(member_views_of(copies@) =~= member_views_of(members@));
                }
                copy
            },
        }
    }

    /// The compact text of this document. No frame delimiter is in it.
    pub fn to_bytes(&self) -> (bytes: Vec<u8>)
        ensures
            bytes@ == json_text(self@),
            !has_frame(bytes@),
    {
        write_json(self)
    }

    /// Parses one JSON document; `None` where the bytes are not one.
    pub fn from_bytes(bytes: &[u8]) -> (parsed: Option<Json>)
        ensures
            match parsed {
                Some(json) => parsed_json(bytes@) == Some(json@),
                None => parsed_json(bytes@) is None,
            },
    {
        parse_json(bytes)
    }
}

/// The values of a sequence of documents.
pub open spec fn views_of(items: Seq<Json>) -> Seq<JsonValue> {
    Seq::new(items.len(), |i: int| items[i]@)
}

/// The names and values of a sequence of members.
pub open spec fn member_views_of(members: Seq<(String, Json)>) -> Seq<(Seq<char>, JsonValue)> {
    Seq::new(members.len(), |i: int| (members[i].0@, members[i].1@))
}

/// The document that a byte string parses to, where it is one JSON document.
pub uninterp spec fn parsed_json(bytes: Seq<u8>) -> Option<JsonValue>;

/// The compact text that a document is written as.
pub uninterp spec fn json_text(json: JsonValue) -> Seq<u8>;

/// Turns a `serde_json::Value` into the tree that holds the same document,
/// variant by variant. A `Number` becomes `Int` where `Number::as_i64` gives
/// an integer and stays a `Number` otherwise.
#[verifier::external_body]
fn json_of_value(value: serde_json::Value) -> Json {
    match value {
        serde_json::Value::Null => Json::Null,
        serde_json::Value::Bool(flag) => Json::Bool(flag),
        serde_json::Value::Number(number) => match number.as_i64() {
            Some(whole) => Json::Int(whole),
            None => Json::Real(number),
        },
        serde_json::Value::String(text) => Json::Str(text),
        serde_json::Value::Array(items) => Json::Array(items.into_iter().map(json_of_value).collect()),
        serde_json::Value::Object(map) => Json::Object(
            map.into_iter().map(|(key, item)| (key, json_of_value(item))).collect(),
        ),
    }
}

/// Turns a tree into the `serde_json::Value` that holds the same document,
/// variant by variant. Members enter the object's map in order, so of two
/// members with one name the later stays.
#[verifier::external_body]
fn value_of_json(json: &Json) -> serde_json::Value {
    match json {
        Json::Null => serde_json::Value::Null,
        Json::Bool(flag) => serde_json::Value::Bool(*flag),
        Json::Int(whole) => serde_json::Value::from(*whole),
        Json::Real(number) => serde_json::Value::Number(number.clone()),
        Json::Str(text) => serde_json::Value::String(text.clone()),
        Json::Array(items) => serde_json::Value::Array(items.iter().map(value_of_json).collect()),
        Json::Object(members) => serde_json::Value::Object(
            members.iter().map(|(key, item)| (key.clone(), value_of_json(item))).collect(),
        ),
    }
}

/// Calls `serde_json::from_slice`. What comes back depends on the bytes
/// alone: a document where they are exactly one JSON document (white space
/// around it allowed), and nothing otherwise.
#[verifier::external_body]
fn parse_json(bytes: &[u8]) -> (parsed: Option<Json>)
    ensures
        match parsed {
            Some(json) => parsed_json(bytes@) == Some(json@),
            None => parsed_json(bytes@) is None,
        },
{
    serde_json::from_slice::<serde_json::Value>(bytes).ok().map(json_of_value)
}

/// Calls `serde_json::to_vec`. What comes back depends on the document
/// alone. The compact writer puts no white space between tokens and writes
/// every control character inside a string as an escape, so no carriage
/// return and no line feed is among the bytes, and no frame delimiter.
#[verifier::external_body]
fn write_json(json: &Json) -> (bytes: Vec<u8>)
    ensures
        bytes@ == json_text(json@),
        !has_frame(bytes@),
{
    serde_json::to_vec(&value_of_json(json)).unwrap_or_default()
}

} // verus!

