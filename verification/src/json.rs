//! JSON values, as far as the sniper reads and writes them.

use vstd::prelude::*;

use crate::text::same;

verus! {

/// A JSON value.
#[derive(Debug)]
pub enum Json {
    /// `null`.
    Null,
    /// `true` or `false`.
    Bool(bool),
    /// A whole number of 64 bits with sign.
    Int(i64),
    /// Any other number, by its notation.
    Number(String),
    /// A string.
    Text(String),
    /// An array.
    Array(Vec<Json>),
    /// An object: its members by name.
    Object(Vec<(String, Json)>),
}

/// The index of the first member of that name; the length where there is none.
pub open spec fn member_index(members: Seq<(String, Json)>, name: Seq<char>, from: int) -> int
    decreases members.len() - from,
{
    if from >= members.len() {
        members.len() as int
    } else if members[from].0@ == name {
        from
    } else {
        member_index(members, name, from + 1)
    }
}

impl Json {
    /// The member of an object.
    pub open spec fn member(self, name: Seq<char>) -> Option<Json> {
        match self {
            Json::Object(members) => {
                let i = member_index(members@, name, 0);
                if i < members@.len() {
                    Some(members@[i].1)
                } else {
                    None
                }
            },
            _ => None,
        }
    }

    /// The contents of a string.
    pub open spec fn string(self) -> Option<Seq<char>> {
        match self {
            Json::Text(text) => Some(text@),
            _ => None,
        }
    }

    /// The whole number.
    pub open spec fn whole(self) -> Option<i64> {
        match self {
            Json::Int(n) => Some(n),
            _ => None,
        }
    }

    /// The truth value.
    pub open spec fn truth(self) -> Option<bool> {
        match self {
            Json::Bool(b) => Some(b),
            _ => None,
        }
    }

    /// The items of an array.
    pub open spec fn items(self) -> Option<Seq<Json>> {
        match self {
            Json::Array(items) => Some(items@),
            _ => None,
        }
    }

    /// Looks up a member of an object.
    pub fn get(&self, name: &str) -> (value: Option<&Json>)
        ensures
            value matches Some(v) ==> self.member(name@) == Some(*v),
            value is None <==> self.member(name@) is None,
    {
        match self {
            Json::Object(members) => {
                let mut i: usize = 0;
                while i < members.len()
                    invariant
                        i <= members@.len(),
                        *self == Json::Object(*members),
                        member_index(members@, name@, 0) == member_index(members@, name@, i as int),
                    decreases members@.len() - i,
                {
                    if same(members[i].0.as_str(), name) {
                        return Some(&members[i].1);
                    }
                    i += 1;
                }
                None
            },
            _ => None,
        }
    }

    /// Reads a string.
    pub fn as_str(&self) -> (text: Option<&str>)
        ensures
            text matches Some(t) ==> self.string() == Some(t@),
            text is None <==> self.string() is None,
    {
        match self {
            Json::Text(text) => Some(text.as_str()),
            _ => None,
        }
    }

    /// Reads a whole number.
    pub fn as_i64(&self) -> (n: Option<i64>)
        ensures
            n == self.whole(),
    {
        match self {
            Json::Int(n) => Some(*n),
            _ => None,
        }
    }

    /// Reads a truth value.
    pub fn as_bool(&self) -> (b: Option<bool>)
        ensures
            b == self.truth(),
    {
        match self {
            Json::Bool(b) => Some(*b),
            _ => None,
        }
    }

    /// Reads an array.
    pub fn as_array(&self) -> (items: Option<&Vec<Json>>)
        ensures
            items matches Some(v) ==> self.items() == Some(v@),
            items is None <==> self.items() is None,
    {
        match self {
            Json::Array(items) => Some(items),
            _ => None,
        }
    }
}

/// The string member of an object, where there is one.
pub open spec fn string_member(value: Option<Json>, name: Seq<char>) -> Option<Seq<char>> {
    match value {
        Some(v) => match v.member(name) {
            Some(m) => m.string(),
            None => None,
        },
        None => None,
    }
}

/// Looks up a string member of an object.
pub fn text_member<'a>(value: &'a Json, name: &str) -> (text: Option<&'a str>)
    ensures
        text matches Some(t) ==> string_member(Some(*value), name@) == Some(t@),
        text is None <==> string_member(Some(*value), name@) is None,
{
    match value.get(name) {
        Some(v) => v.as_str(),
        None => None,
    }
}

/// The text of a text that may be missing; the empty one where it is.
pub open spec fn or_empty(text: Option<Seq<char>>) -> Seq<char> {
    match text {
        Some(t) => t,
        None => Seq::empty(),
    }
}

/// A member is found under its name: the first of that name, and none where no member has it.
pub proof fn law_member_is_found(members: Vec<(String, Json)>, name: Seq<char>, i: int)
    requires
        0 <= i <= members@.len(),
        forall|j: int| 0 <= j < i ==> (#[trigger] members@[j]).0@ != name,
    ensures
        i < members@.len() && members@[i].0@ == name ==> Json::Object(members).member(name) == Some(
            members@[i].1,
        ),
        i == members@.len() ==> Json::Object(members).member(name) is None,
{
    lemma_member_index(members@, name, 0, i);
}

/// Members of other names are passed over.
proof fn lemma_member_index(members: Seq<(String, Json)>, name: Seq<char>, from: int, i: int)
    requires
        0 <= from <= i <= members.len(),
        forall|j: int| from <= j < i ==> (#[trigger] members[j]).0@ != name,
    ensures
        member_index(members, name, from) == member_index(members, name, i),
    decreases i - from,
{
    if from < i {
        assert(members[from].0@ != name);
        lemma_member_index(members, name, from + 1, i);
    }
}

/// A string member is read where the value is an object whose member of that name is a string.
pub proof fn law_string_member_is_read(members: Vec<(String, Json)>, name: Seq<char>, i: int)
    requires
        0 <= i < members@.len(),
        forall|j: int| 0 <= j < i ==> (#[trigger] members@[j]).0@ != name,
        members@[i].0@ == name,
    ensures
        members@[i].1 matches Json::Text(text) ==> string_member(
            Some(Json::Object(members)),
            name,
        ) == Some(text@),
        !(members@[i].1 is Text) ==> string_member(Some(Json::Object(members)), name) is None,
{
    law_member_is_found(members, name, i);
}

} // verus!
