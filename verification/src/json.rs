//! JSON documents as far as payloads are read and written here.

use vstd::prelude::*;

use crate::double::Double;

verus! {

/// A JSON number, by what it reads as.
#[derive(Debug, Clone, Copy, PartialEq, Eq, Structural)]
pub struct JsonNumber {
    /// The number as a 64-bit integer, where it is written as one that fits.
    pub integer: Option<i64>,
    /// The number as a binary64 number.
    pub double: Option<Double>,
}

/// A JSON value.
#[derive(Debug, PartialEq)]
pub enum Json {
    Null,
    Bool(bool),
    Number(JsonNumber),
    Text(String),
    Array(Vec<Json>),
    /// The members in order. Of several with one key the last one counts.
    Object(Vec<(String, Json)>),
}

/// What a JSON value stands for.
pub enum JsonModel {
    Null,
    Bool(bool),
    Number(JsonNumber),
    Text(Seq<char>),
    Array(Seq<JsonModel>),
    Object(Map<Seq<char>, JsonModel>),
}

// ----------------------------------------------------------------- models

impl JsonModel {
    /// The value of an object's member.
    pub open spec fn member(self, key: Seq<char>) -> Option<JsonModel> {
        match self {
            JsonModel::Object(members) => if members.contains_key(key) {
                Some(members[key])
            } else {
                None
            },
            _ => None,
        }
    }

    /// The characters of a member that is a string.
    pub open spec fn text_at(self, key: Seq<char>) -> Option<Seq<char>> {
        match self.member(key) {
            Some(JsonModel::Text(text)) => Some(text),
            _ => None,
        }
    }

    /// The integer of a member that is a number and reads as one.
    pub open spec fn integer_at(self, key: Seq<char>) -> Option<i64> {
        match self.member(key) {
            Some(JsonModel::Number(number)) => number.integer,
            _ => None,
        }
    }

    /// The binary64 number of a member that is a number.
    pub open spec fn double_at(self, key: Seq<char>) -> Option<Double> {
        match self.member(key) {
            Some(JsonModel::Number(number)) => number.double,
            _ => None,
        }
    }

    /// The truth value of a member that is one.
    pub open spec fn bool_at(self, key: Seq<char>) -> Option<bool> {
        match self.member(key) {
            Some(JsonModel::Bool(b)) => Some(b),
            _ => None,
        }
    }
}

impl Json {
    /// What the value stands for.
    pub open spec fn model(self) -> JsonModel
        decreases self,
    {
        match self {
            Json::Null => JsonModel::Null,
            Json::Bool(b) => JsonModel::Bool(b),
            Json::Number(number) => JsonModel::Number(number),
            Json::Text(text) => JsonModel::Text(text@),
            Json::Array(items) => JsonModel::Array(items_model(items@)),
            Json::Object(members) => JsonModel::Object(members_model(members@)),
        }
    }

    /// Whether every number in the value is finite, as JSON can write no other.
    pub open spec fn is_finite(self) -> bool
        decreases self,
    {
        match self {
            Json::Number(number) => number.double matches Some(double) ==> double@ is Finite,
            Json::Array(items) => forall|i: int|
                0 <= i < items@.len() ==> (#[trigger] items@[i]).is_finite(),
            Json::Object(members) => forall|i: int|
                0 <= i < members@.len() ==> (#[trigger] members@[i]).1.is_finite(),
            _ => true,
        }
    }
}

/// What the items of an array stand for.
pub open spec fn items_model(items: Seq<Json>) -> Seq<JsonModel>
    decreases items,
{
    if items.len() == 0 {
        Seq::empty()
    } else {
        items_model(items.drop_last()).push(items.last().model())
    }
}

/// The map that the members of an object make up, one after the other.
pub open spec fn members_model(members: Seq<(String, Json)>) -> Map<Seq<char>, JsonModel>
    decreases members,
{
    if members.len() == 0 {
        Map::empty()
    } else {
        members_model(members.drop_last()).insert(members.last().0@, members.last().1.model())
    }
}

// ----------------------------------------------------------------- lemmas

/// The items of an array stand for what each of them stands for.
pub proof fn lemma_items_model(items: Seq<Json>)
    ensures
        items_model(items).len() == items.len(),
        forall|i: int| 0 <= i < items.len() ==> #[trigger] items_model(items)[i] == items[i].model(),
    decreases items.len(),
{
    if items.len() > 0 {
        lemma_items_model(items.drop_last());
        assert forall|i: int| 0 <= i < items.len() implies #[trigger] items_model(items)[i]
            == items[i].model() by {
            if i < items.len() - 1 {
                assert(items.drop_last()[i] == items[i]);
            }
        }
    }
}

// ------------------------------------------------------------ executables

impl Json {
    /// The value of an object's member.
    pub fn member(&self, key: &str) -> (res: Option<&Json>)
        ensures
            match res {
                Some(value) => self.model().member(key@) == Some(value.model()),
                None => self.model().member(key@) is None,
            },
    {
        match self {
            Json::Object(members) => {
                let name = key.to_owned();
                let mut i: usize = members.len();
                assert(members@.take(i as int) == members@);
                while i > 0
                    invariant
                        i <= members@.len(),
                        name@ == key@,
                        *self == Json::Object(*members),
                        self.model().member(key@) == JsonModel::Object(
                            members_model(members@.take(i as int)),
                        ).member(key@),
                    decreases i,
                {
                    assert(members@.take(i as int).drop_last() == members@.take(i - 1));
                    if members[i - 1].0 == name {
                        return Some(&members[i - 1].1);
                    }
                    i -= 1;
                }
                None
            },
            _ => None,
        }
    }

    /// The string of a member that is one.
    pub fn text_at(&self, key: &str) -> (res: Option<&String>)
        ensures
            match res {
                Some(text) => self.model().text_at(key@) == Some(text@),
                None => self.model().text_at(key@) is None,
            },
    {
        match self.member(key) {
            Some(Json::Text(text)) => Some(text),
            _ => None,
        }
    }

    /// The integer of a member that is a number and reads as one.
    pub fn integer_at(&self, key: &str) -> (res: Option<i64>)
        ensures
            res == self.model().integer_at(key@),
    {
        match self.member(key) {
            Some(Json::Number(number)) => number.integer,
            _ => None,
        }
    }

    /// The binary64 number of a member that is a number.
    pub fn double_at(&self, key: &str) -> (res: Option<Double>)
        ensures
            res == self.model().double_at(key@),
    {
        match self.member(key) {
            Some(Json::Number(number)) => number.double,
            _ => None,
        }
    }

    /// The truth value of a member that is one.
    pub fn bool_at(&self, key: &str) -> (res: Option<bool>)
        ensures
            res == self.model().bool_at(key@),
    {
        match self.member(key) {
            Some(Json::Bool(b)) => Some(*b),
            _ => None,
        }
    }
}

} // verus!
