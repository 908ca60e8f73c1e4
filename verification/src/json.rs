//! JSON: values that are read, and text that is written.
use serde_json::Value;
use vstd::prelude::*;

use crate::text::{join2, join3, join_all, joined, lemma_texts_push, same_text, texts};

verus! {

// ---------------------------------------------------------------------------
// Reading
// ---------------------------------------------------------------------------

/// A JSON value. A number is held as it is written again once it was read: a whole number that fits
/// 64 bits by its digits, any other as the closest 64-bit float is printed. The members of an object
/// stand in the order of their names.
#[derive(Debug)]
pub enum Json {
    Null,
    Bool(bool),
    Number(String),
    Text(String),
    List(Vec<Json>),
    Members(Vec<(String, Json)>),
}

/// A JSON value as plain values.
pub enum JsonFacts {
    Null,
    Bool(bool),
    Number(Seq<char>),
    Text(Seq<char>),
    List(Seq<JsonFacts>),
    Members(Seq<(Seq<char>, JsonFacts)>),
}

impl Json {
    /// The value as plain values.
    pub open spec fn facts(self) -> JsonFacts
        decreases self,
    {
        match self {
            Json::Null => JsonFacts::Null,
            Json::Bool(value) => JsonFacts::Bool(value),
            Json::Number(text) => JsonFacts::Number(text@),
            Json::Text(text) => JsonFacts::Text(text@),
            Json::List(items) => JsonFacts::List(
                Seq::new(
                    items.len() as nat,
                    |i: int|
                        if 0 <= i < items.len() {
                            items[i].facts()
                        } else {
                            JsonFacts::Null
                        },
                ),
            ),
            Json::Members(members) => JsonFacts::Members(
                Seq::new(
                    members.len() as nat,
                    |i: int|
                        if 0 <= i < members.len() {
                            (members[i].0@, members[i].1.facts())
                        } else {
                            (Seq::empty(), JsonFacts::Null)
                        },
                ),
            ),
        }
    }
}

/// The value that `serde_json` reads out of some text, or what it says where the text is not JSON.
pub uninterp spec fn json_value_of(text: Seq<char>) -> Result<JsonFacts, Seq<char>>;

/// Calls `serde_json::from_str` for a `serde_json::Value` and converts what it gives, list items
/// and members by reading the text that they are written as. The result is a function of the text
/// alone; which texts are JSON, and what they hold, is not said here.
#[verifier::external_body]
pub(crate) fn read_json(text: &str) -> (r: Result<Json, String>)
    ensures
        match r {
            Ok(value) => json_value_of(text@) == Ok::<JsonFacts, Seq<char>>(value.facts()),
            Err(error) => json_value_of(text@) == Err::<JsonFacts, Seq<char>>(error@),
        },
{
    Ok(match serde_json::from_str::<Value>(text).map_err(|error| error.to_string())? {
        Value::Null => Json::Null,
        Value::Bool(value) => Json::Bool(value),
        Value::Number(number) => Json::Number(number.to_string()),
        Value::String(text) => Json::Text(text),
        Value::Array(items) => Json::List(
            items.iter().map(|item| read_json(&item.to_string())).collect::<Result<Vec<_>, String>>()?),
        Value::Object(members) => Json::Members(
            members.iter().map(|(name, item)| Ok((name.clone(), read_json(&item.to_string())?)))
                .collect::<Result<Vec<_>, String>>()?),
    })
}

impl JsonFacts {
    /// The member of an object by its name.
    pub open spec fn member(self, name: Seq<char>) -> Option<JsonFacts> {
        match self {
            JsonFacts::Members(members) => member_of(members, name),
            _ => None,
        }
    }

    /// The text that the value is.
    pub open spec fn text(self) -> Option<Seq<char>> {
        match self {
            JsonFacts::Text(text) => Some(text),
            _ => None,
        }
    }

    /// The items of the list that the value is.
    pub open spec fn items(self) -> Option<Seq<JsonFacts>> {
        match self {
            JsonFacts::List(items) => Some(items),
            _ => None,
        }
    }

    /// The text that a member is.
    pub open spec fn member_text(self, name: Seq<char>) -> Option<Seq<char>> {
        match self.member(name) {
            Some(value) => value.text(),
            None => None,
        }
    }

    /// The items of the list that a member is.
    pub open spec fn member_items(self, name: Seq<char>) -> Option<Seq<JsonFacts>> {
        match self.member(name) {
            Some(value) => value.items(),
            None => None,
        }
    }
}

/// The first member with a name.
pub open spec fn member_of(members: Seq<(Seq<char>, JsonFacts)>, name: Seq<char>) -> Option<
    JsonFacts,
>
    decreases members.len(),
{
    if members.len() == 0 {
        None
    } else if members[0].0 == name {
        Some(members[0].1)
    } else {
        member_of(members.skip(1), name)
    }
}

/// The items of a list as plain values.
pub open spec fn item_facts(items: Seq<Json>) -> Seq<JsonFacts> {
    items.map_values(|item: Json| item.facts())
}

impl Json {
    /// The member of an object by its name.
    pub fn get(&self, name: &str) -> (r: Option<&Json>)
        ensures
            match r {
                Some(value) => self.facts().member(name@) == Some(value.facts()),
                None => self.facts().member(name@) is None,
            },
    {
        match self {
            Json::Members(members) => {
                let ghost facts = self.facts()->Members_0;
                let mut i: usize = 0;
                assert(facts.skip(0) =~= facts);
                while i < members.len()
                    invariant
                        i <= members@.len(),
                        self == &Json::Members(*members),
                        facts == self.facts()->Members_0,
                        facts.len() == members@.len(),
                        member_of(facts, name@) == member_of(facts.skip(i as int), name@),
                    decreases members@.len() - i,
                {
                    assert(facts.skip(i as int)[0] == facts[i as int]);
                    assert(facts[i as int] == (members@[i as int].0@, members@[i as int].1.facts()));
                    if same_text(members[i].0.as_str(), name) {
                        return Some(&members[i].1);
                    }
                    assert(facts.skip(i as int).skip(1) =~= facts.skip(i + 1));
                    i += 1;
                }
                None
            },
            _ => None,
        }
    }

    /// The text that the value is.
    pub fn as_text(&self) -> (r: Option<&String>)
        ensures
            match r {
                Some(text) => self.facts().text() == Some(text@),
                None => self.facts().text() is None,
            },
    {
        match self {
            Json::Text(text) => Some(text),
            _ => None,
        }
    }

    /// The items of the list that the value is.
    pub fn as_list(&self) -> (r: Option<&Vec<Json>>)
        ensures
            match r {
                Some(items) => self.facts().items() == Some(item_facts(items@)),
                None => self.facts().items() is None,
            },
    {
        match self {
            Json::List(items) => {
                assert(self.facts()->List_0 =~= item_facts(items@));
                Some(items)
            },
            _ => None,
        }
    }

    /// The text that a member is.
    pub fn text_at(&self, name: &str) -> (r: Option<&String>)
        ensures
            match r {
                Some(text) => self.facts().member_text(name@) == Some(text@),
                None => self.facts().member_text(name@) is None,
            },
    {
        match self.get(name) {
            Some(value) => value.as_text(),
            None => None,
        }
    }

    /// The items of the list that a member is.
    pub fn list_at(&self, name: &str) -> (r: Option<&Vec<Json>>)
        ensures
            match r {
                Some(items) => self.facts().member_items(name@) == Some(item_facts(items@)),
                None => self.facts().member_items(name@) is None,
            },
    {
        match self.get(name) {
            Some(value) => value.as_list(),
            None => None,
        }
    }
}

// ---------------------------------------------------------------------------
// Writing
// ---------------------------------------------------------------------------

/// How `serde_json` writes a text: in quotes, with what must be escaped escaped.
pub uninterp spec fn json_quoted_of(text: Seq<char>) -> Seq<char>;

/// Writes a `serde_json::Value` that is a text. How a text is written depends on the text alone.
#[verifier::external_body]
pub(crate) fn json_quoted(text: &str) -> (r: String)
    ensures
        r@ == json_quoted_of(text@),
{
    Value::from(text).to_string()
}

/// How a text that may be absent is written.
pub open spec fn json_optional(text: Option<Seq<char>>) -> Seq<char> {
    match text {
        Some(text) => json_quoted_of(text),
        None => "null"@,
    }
}

/// How a truth value is written.
pub open spec fn json_bool(value: bool) -> Seq<char> {
    if value {
        "true"@
    } else {
        "false"@
    }
}

/// A list of written values.
pub open spec fn json_list(items: Seq<Seq<char>>) -> Seq<char> {
    "["@ + joined(items, ","@) + "]"@
}

/// An object of written members.
pub open spec fn json_object(members: Seq<Seq<char>>) -> Seq<char> {
    "{"@ + joined(members, ","@) + "}"@
}

/// A member with a written value. The name holds nothing that would have to be escaped.
pub open spec fn json_member(name: Seq<char>, value: Seq<char>) -> Seq<char> {
    "\""@ + name + "\":"@ + value
}

/// Writes a text that may be absent.
pub fn optional_json(text: &Option<String>) -> (r: String)
    ensures
        r@ == json_optional(crate::text::opt_text(*text)),
{
    match text {
        Some(text) => json_quoted(text.as_str()),
        None => "null".to_owned(),
    }
}

/// Writes a truth value.
pub fn bool_json(value: bool) -> (r: String)
    ensures
        r@ == json_bool(value),
{
    if value {
        "true".to_owned()
    } else {
        "false".to_owned()
    }
}

/// Writes a list.
pub fn list_json(items: &Vec<String>) -> (r: String)
    ensures
        r@ == json_list(texts(items@)),
{
    join3("[", join_all(items, ",").as_str(), "]")
}

/// Writes an object.
pub fn object_json(members: &Vec<String>) -> (r: String)
    ensures
        r@ == json_object(texts(members@)),
{
    join3("{", join_all(members, ",").as_str(), "}")
}

/// Adds a member to those of an object.
pub fn push_member(members: &mut Vec<String>, name: &str, value: &str)
    ensures
        texts(final(members)@) == texts(old(members)@).push(json_member(name@, value@)),
{
    let member = join2(join3("\"", name, "\":").as_str(), value);
    proof {
        lemma_texts_push(members@, member);
    }
    members.push(member);
}

/// A member is found under its name, and is the first of that name.
pub proof fn law_member_by_name(members: Seq<(Seq<char>, JsonFacts)>, i: int)
    requires
        0 <= i < members.len(),
        forall|j: int| 0 <= j < i ==> (#[trigger] members[j]).0 != members[i].0,
    ensures
        member_of(members, members[i].0) == Some(members[i].1),
        JsonFacts::Members(members).member(members[i].0) == Some(members[i].1),
    decreases members.len(),
{
    if i > 0 {
        let rest = members.skip(1);
        assert(members[0].0 != members[i].0);
        assert(rest[i - 1] == members[i]);
        assert forall|j: int| 0 <= j < i - 1 implies (#[trigger] rest[j]).0 != rest[i - 1].0 by {
            assert(rest[j] == members[j + 1]);
        }
        law_member_by_name(rest, i - 1);
    }
}

} // verus!
