//! JSON documents: the tree that a schema is, with what the library reads
//! from it and writes into it.

use vstd::prelude::*;
use crate::error::{Error, ErrorView};
use crate::text::{is_before, lemma_text_before_total, lemma_text_before_transitive, text_before};
use crate::trusted::{json_document, json_text, parse_json, render_json};

verus! {

/// A JSON document as a mathematical tree. An object is the sequence of its
/// members in the order in which they are walked: in a well-formed document
/// that is the order of their keys. A number is the number that
/// `serde_json` holds for it.
pub enum JsonValue {
    Null,
    Bool(bool),
    Number(serde_json::Number),
    String(Seq<char>),
    Array(Seq<JsonValue>),
    Object(Seq<(Seq<char>, JsonValue)>),
}

/// The members stand in the order of their keys, each key once.
pub open spec fn sorted_keys(members: Seq<(Seq<char>, JsonValue)>) -> bool {
    forall|i: int, j: int|
        0 <= i < j < members.len() ==> text_before(#[trigger] members[i].0, #[trigger] members[j].0)
}

/// The index of the first member at or after `from` whose key does not
/// stand before `key`: the place of `key` among sorted members.
pub open spec fn place_from(members: Seq<(Seq<char>, JsonValue)>, key: Seq<char>, from: int) -> int
    decreases members.len() - from,
{
    if from < 0 || from >= members.len() {
        members.len() as int
    } else if text_before(members[from].0, key) {
        place_from(members, key, from + 1)
    } else {
        from
    }
}

/// The index of the first member at or after `from` whose key is `key`.
pub open spec fn find_from(
    members: Seq<(Seq<char>, JsonValue)>,
    key: Seq<char>,
    from: int,
) -> Option<int>
    decreases members.len() - from,
{
    if from < 0 || from >= members.len() {
        None
    } else if members[from].0 == key {
        Some(from)
    } else {
        find_from(members, key, from + 1)
    }
}

/// The value that an object holds under `key`, if any.
pub open spec fn member(members: Seq<(Seq<char>, JsonValue)>, key: Seq<char>) -> Option<
    JsonValue,
> {
    match find_from(members, key, 0) {
        Some(i) => Some(members[i].1),
        None => None,
    }
}

/// The members after `key` was set to `value`: a member that stands at the
/// place of `key` with that key gets the new value, else a new member
/// comes in at that place. Sorted members stay sorted.
pub open spec fn with_member(
    members: Seq<(Seq<char>, JsonValue)>,
    key: Seq<char>,
    value: JsonValue,
) -> Seq<(Seq<char>, JsonValue)> {
    let at = place_from(members, key, 0);
    if at < members.len() && members[at].0 == key {
        members.update(at, (key, value))
    } else {
        members.insert(at, (key, value))
    }
}

impl JsonValue {
    /// Every object in the tree has its members in the order of their
    /// keys, each key once.
    pub open spec fn wf(self) -> bool
        decreases self,
    {
        match self {
            JsonValue::Array(items) => forall|i: int|
                #![trigger items[i]]
                0 <= i < items.len() ==> items[i].wf(),
            JsonValue::Object(members) => sorted_keys(members) && forall|i: int|
                #![trigger members[i]]
                0 <= i < members.len() ==> members[i].1.wf(),
            _ => true,
        }
    }
}

/// What `find_from` returns is the first index from `from` on that holds `key`.
pub proof fn lemma_find_from(members: Seq<(Seq<char>, JsonValue)>, key: Seq<char>, from: int)
    requires
        0 <= from,
    ensures
        match find_from(members, key, from) {
            Some(i) => from <= i < members.len() && members[i].0 == key && forall|j: int|
                from <= j < i ==> members[j].0 != key,
            None => forall|j: int| from <= j < members.len() ==> members[j].0 != key,
        },
    decreases members.len() - from,
{
    if from < members.len() && members[from].0 != key {
        lemma_find_from(members, key, from + 1);
    }
}

/// What `place_from` returns is the place of `key` from `from` on: the keys
/// before it stand before `key`, the key at it does not.
pub proof fn lemma_place_from(members: Seq<(Seq<char>, JsonValue)>, key: Seq<char>, from: int)
    requires
        0 <= from <= members.len(),
    ensures
        from <= place_from(members, key, from) <= members.len(),
        forall|j: int|
            from <= j < place_from(members, key, from) ==> text_before(
                #[trigger] members[j].0,
                key,
            ),
        place_from(members, key, from) < members.len() ==> !text_before(
            members[place_from(members, key, from)].0,
            key,
        ),
    decreases members.len() - from,
{
    if from < members.len() && text_before(members[from].0, key) {
        lemma_place_from(members, key, from + 1);
    }
}

/// Setting a member among sorted members leaves them sorted.
pub proof fn lemma_with_member_sorted(
    members: Seq<(Seq<char>, JsonValue)>,
    key: Seq<char>,
    value: JsonValue,
)
    requires
        sorted_keys(members),
    ensures
        sorted_keys(with_member(members, key, value)),
{
    lemma_place_from(members, key, 0);
    let at = place_from(members, key, 0);
    let after = with_member(members, key, value);
    if at < members.len() && members[at].0 == key {
        assert forall|i: int, j: int| 0 <= i < j < after.len() implies text_before(
            #[trigger] after[i].0,
            #[trigger] after[j].0,
        ) by {
            assert(after[i].0 == members[i].0);
            assert(after[j].0 == members[j].0);
        }
    } else {
        assert forall|j: int| at <= j < members.len() implies text_before(
            key,
            #[trigger] members[j].0,
        ) by {
            lemma_text_before_total(members[at].0, key);
            if at < j {
                assert(text_before(members[at].0, members[j].0));
                lemma_text_before_transitive(key, members[at].0, members[j].0);
            }
        }
        assert forall|i: int, j: int| 0 <= i < j < after.len() implies text_before(
            #[trigger] after[i].0,
            #[trigger] after[j].0,
        ) by {
            if j < at {
                assert(after[i] == members[i] && after[j] == members[j]);
            } else if j == at {
                assert(after[i] == members[i]);
            } else if i < at {
                assert(after[i] == members[i] && after[j] == members[j - 1]);
            } else if i == at {
                assert(after[j] == members[j - 1]);
            } else {
                assert(after[i] == members[i - 1] && after[j] == members[j - 1]);
            }
        }
    }
}

/// Each member after a member was set is a member from before or the one
/// that was set.
pub proof fn lemma_with_member_parts(
    members: Seq<(Seq<char>, JsonValue)>,
    key: Seq<char>,
    value: JsonValue,
)
    ensures
        forall|i: int|
            0 <= i < with_member(members, key, value).len() ==> {
                ||| #[trigger] with_member(members, key, value)[i] == (key, value)
                ||| exists|j: int|
                    0 <= j < members.len() && with_member(members, key, value)[i] == members[j]
            },
{
    lemma_place_from(members, key, 0);
    let at = place_from(members, key, 0);
    let after = with_member(members, key, value);
    assert forall|i: int| 0 <= i < after.len() implies {
        ||| #[trigger] after[i] == (key, value)
        ||| exists|j: int| 0 <= j < members.len() && after[i] == members[j]
    } by {
        if at < members.len() && members[at].0 == key {
            if i != at {
                assert(after[i] == members[i]);
            }
        } else {
            if i < at {
                assert(after[i] == members[i]);
            } else if i > at {
                assert(after[i] == members[i - 1]);
            }
        }
    }
}

/// Setting a member to a well-formed value keeps an object well formed.
pub proof fn lemma_with_member_wf(
    members: Seq<(Seq<char>, JsonValue)>,
    key: Seq<char>,
    value: JsonValue,
)
    requires
        JsonValue::Object(members).wf(),
        value.wf(),
    ensures
        JsonValue::Object(with_member(members, key, value)).wf(),
{
    let after = with_member(members, key, value);
    assert(JsonValue::Object(members)->Object_0 == members);
    assert(JsonValue::Object(after)->Object_0 == after);
    lemma_with_member_sorted(members, key, value);
    lemma_with_member_parts(members, key, value);
    assert forall|i: int| #![trigger after[i]] 0 <= i < after.len() implies after[i].1.wf() by {
        if after[i] != (key, value) {
            let j = choose|j: int| 0 <= j < members.len() && after[i] == members[j];
            assert(members[j].1.wf());
        }
    }
}

/// A member that an object holds is well formed where the object is.
pub proof fn lemma_member_wf(members: Seq<(Seq<char>, JsonValue)>, key: Seq<char>)
    requires
        forall|i: int| #![trigger members[i]] 0 <= i < members.len() ==> members[i].1.wf(),
    ensures
        member(members, key) matches Some(value) ==> value.wf(),
{
    lemma_find_from(members, key, 0);
}

/// A JSON document. An object holds its members in the order in which they
/// are walked; it is well formed where that is the order of their keys,
/// each key once. Two documents are equal where they hold the same members
/// in the same order, so well-formed documents are equal exactly where
/// they stand for the same JSON.
#[derive(Debug, PartialEq)]
pub enum Json {
    Null,
    Bool(bool),
    Number(serde_json::Number),
    String(String),
    Array(Vec<Json>),
    Object(Vec<(String, Json)>),
}

/// The members of an object, each by its view.
pub open spec fn members_view(members: Seq<(String, Json)>) -> Seq<(Seq<char>, JsonValue)> {
    Seq::new(members.len(), |i: int| (members[i].0@, members[i].1@))
}

/// The items of an array, each by its view.
pub open spec fn items_view(items: Seq<Json>) -> Seq<JsonValue> {
    Seq::new(items.len(), |i: int| items[i]@)
}

impl View for Json {
    type V = JsonValue;

    open spec fn view(&self) -> JsonValue
        decreases self,
    {
        match self {
            Json::Null => JsonValue::Null,
            Json::Bool(b) => JsonValue::Bool(*b),
            Json::Number(n) => JsonValue::Number(*n),
            Json::String(s) => JsonValue::String(s@),
            Json::Array(items) => JsonValue::Array(
                Seq::new(
                    items@.len(),
                    |i: int|
                        if 0 <= i < items@.len() {
                            items@[i].view()
                        } else {
                            JsonValue::Null
                        },
                ),
            ),
            Json::Object(members) => JsonValue::Object(
                Seq::new(
                    members@.len(),
                    |i: int|
                        (
                            members@[i].0@,
                            if 0 <= i < members@.len() {
                                members@[i].1.view()
                            } else {
                                JsonValue::Null
                            },
                        ),
                ),
            ),
        }
    }
}

/// The view of an array or an object is made of the views of its parts.
pub proof fn lemma_view_parts(j: Json)
    ensures
        j matches Json::Array(items) ==> j@ == JsonValue::Array(items_view(items@)),
        j matches Json::Object(members) ==> j@ == JsonValue::Object(members_view(members@)),
{
    match j {
        Json::Array(items) => {
            assert(j@->Array_0 =~= items_view(items@));
        },
        Json::Object(members) => {
            assert(j@->Object_0 =~= members_view(members@));
        },
        _ => {},
    }
}

impl Clone for Json {
    /// A deep copy.
    fn clone(&self) -> (copy: Json)
        ensures
            copy@ == self@,
        decreases self,
    {
        match self {
            Json::Null => Json::Null,
            Json::Bool(b) => Json::Bool(*b),
            Json::Number(n) => Json::Number(n.clone()),
            Json::String(s) => Json::String(s.clone()),
            Json::Array(items) => {
                let mut copies: Vec<Json> = Vec::new();
                let mut i: usize = 0;
                while i < items.len()
                    invariant
                        *self == Json::Array(*items),
                        i <= items.len(),
                        copies@.len() == i,
                        forall|k: int| 0 <= k < i ==> copies@[k]@ == items@[k]@,
                    decreases items.len() - i,
                {
                    assert(decreases_to!(*self => self->Array_0));
                    let item = items[i].clone();
                    copies.push(item);
                    i += 1;
                }
                let copy = Json::Array(copies);
                proof {
                    lemma_view_parts(copy);
                    lemma_view_parts(*self);
                    assert(items_view(copies@) =~= items_view(items@));
                }
                copy
            },
            Json::Object(members) => {
                let mut copies: Vec<(String, Json)> = Vec::new();
                let mut i: usize = 0;
                while i < members.len()
                    invariant
                        *self == Json::Object(*members),
                        i <= members.len(),
                        copies@.len() == i,
                        forall|k: int|
                            0 <= k < i ==> copies@[k].0@ == members@[k].0@ && copies@[k].1@
                                == members@[k].1@,
                    decreases members.len() - i,
                {
                    let key = members[i].0.clone();
                    assert(decreases_to!(*self => self->Object_0));
                    let value = members[i].1.clone();
                    copies.push((key, value));
                    i += 1;
                }
                let copy = Json::Object(copies);
                proof {
                    lemma_view_parts(copy);
                    lemma_view_parts(*self);
                    assert(members_view(copies@) =~= members_view(members@));
                }
                copy
            },
        }
    }
}

/// The value that the first of `members` with the key `key` holds.
pub fn find_member<'a>(members: &'a Vec<(String, Json)>, key: &str) -> (found: Option<&'a Json>)
    ensures
        match found {
            Some(value) => member(members_view(members@), key@) == Some(value@),
            None => member(members_view(members@), key@) is None,
        },
{
    let ghost viewed = members_view(members@);
    let wanted = key.to_owned();
    let mut i: usize = 0;
    while i < members.len()
        invariant
            i <= members.len(),
            viewed == members_view(members@),
            wanted@ == key@,
            find_from(viewed, key@, 0) == find_from(viewed, key@, i as int),
        decreases members.len() - i,
    {
        if members[i].0 == wanted {
            return Some(&members[i].1);
        }
        i += 1;
    }
    None
}

impl Json {
    /// Reads a JSON text. The document is well formed; a text that is not
    /// JSON gives `InvalidJson`.
    pub fn parse(text: &str) -> (parsed: Result<Json, Error>)
        ensures
            match json_document(text@) {
                Ok(document) => parsed matches Ok(json) && json@ == document && json@.wf(),
                Err(message) => parsed matches Err(error) && error@ == ErrorView::InvalidJson(
                    message,
                ),
            },
    {
        match parse_json(text) {
            Ok(json) => Ok(json),
            Err(message) => Err(Error::InvalidJson(message)),
        }
    }

    /// Writes the document as JSON text.
    pub fn to_text(&self) -> (text: String)
        ensures
            text@ == json_text(self@),
    {
        render_json(self)
    }

    /// The value that an object holds under `key`; `None` for a missing key
    /// and for anything but an object.
    pub fn get<'a>(&'a self, key: &str) -> (found: Option<&'a Json>)
        ensures
            match self@ {
                JsonValue::Object(members) => match found {
                    Some(value) => member(members, key@) == Some(value@),
                    None => member(members, key@) is None,
                },
                _ => found is None,
            },
    {
        match self {
            Json::Object(members) => {
                proof {
                    lemma_view_parts(*self);
                }
                find_member(members, key)
            },
            _ => None,
        }
    }
}

/// Sets `key` to `value` among the members of an object: a member that
/// stands at the place of `key` with that key gets the new value, else a
/// new member comes in at that place.
pub fn set_member(members: &mut Vec<(String, Json)>, key: String, value: Json)
    ensures
        members_view(final(members)@) == with_member(members_view(old(members)@), key@, value@),
{
    let ghost before = members_view(members@);
    let mut at: usize = 0;
    while at < members.len() && is_before(members[at].0.as_str(), key.as_str())
        invariant
            at <= members.len(),
            *members == *old(members),
            before == members_view(members@),
            place_from(before, key@, 0) == place_from(before, key@, at as int),
        decreases members.len() - at,
    {
        at += 1;
    }
    if at < members.len() && members[at].0 == key {
        members.set(at, (key, value));
        assert(members_view(members@) =~= before.update(at as int, (key@, value@)));
    } else {
        members.insert(at, (key, value));
        assert(members_view(members@) =~= before.insert(at as int, (key@, value@)));
    }
}

} // verus!
