//! JSON values, and the text that they are read from and written to.
use vstd::prelude::*;
use vstd::string::*;

use crate::text::same_text;

verus! {

/// A JSON value.
#[derive(Debug)]
pub enum Json {
    Null,
    Bool(bool),
    /// A whole number that is not negative.
    Number(u64),
    /// Any other number, as it is written.
    OtherNumber(String),
    Text(String),
    List(Vec<Json>),
    Object(Vec<(String, Json)>),
}

/// A JSON value by its texts and its contents.
pub enum JsonView {
    Null,
    Bool(bool),
    Number(u64),
    OtherNumber(Seq<char>),
    Text(Seq<char>),
    List(Seq<JsonView>),
    Object(Seq<(Seq<char>, JsonView)>),
}

impl Json {
    /// The value by its texts and its contents.
    pub open spec fn view(self) -> JsonView
        decreases self,
    {
        match self {
            Json::Null => JsonView::Null,
            Json::Bool(flag) => JsonView::Bool(flag),
            Json::Number(number) => JsonView::Number(number),
            Json::OtherNumber(text) => JsonView::OtherNumber(text@),
            Json::Text(text) => JsonView::Text(text@),
            Json::List(items) => JsonView::List(
                Seq::new(
                    items@.len(),
                    |k: int|
                        if 0 <= k < items@.len() {
                            items@[k].view()
                        } else {
                            JsonView::Null
                        },
                ),
            ),
            Json::Object(entries) => JsonView::Object(
                Seq::new(
                    entries@.len(),
                    |k: int|
                        (
                            entries@[k].0@,
                            if 0 <= k < entries@.len() {
                                entries@[k].1.view()
                            } else {
                                JsonView::Null
                            },
                        ),
                ),
            ),
        }
    }
}

/// Values by their texts and their contents.
pub open spec fn json_views(items: Seq<Json>) -> Seq<JsonView> {
    items.map_values(|item: Json| item.view())
}

/// A value by its contents, where there is one.
pub open spec fn opt_json(value: Option<Json>) -> Option<JsonView> {
    match value {
        Some(value) => Some(value.view()),
        None => None,
    }
}

/// The first member of an object that has a name.
pub open spec fn entry(entries: Seq<(Seq<char>, JsonView)>, key: Seq<char>) -> Option<JsonView>
    decreases entries.len(),
{
    if entries.len() == 0 {
        None
    } else if entries[0].0 == key {
        Some(entries[0].1)
    } else {
        entry(entries.skip(1), key)
    }
}

/// The member of a value that has a name, where the value is an object with one.
pub open spec fn member(value: JsonView, key: Seq<char>) -> Option<JsonView> {
    match value {
        JsonView::Object(entries) => entry(entries, key),
        _ => None,
    }
}

/// The text of a value, where it is one.
pub open spec fn json_text(value: Option<JsonView>) -> Option<Seq<char>> {
    match value {
        Some(JsonView::Text(text)) => Some(text),
        _ => None,
    }
}

/// The items of a value, where it is a list.
pub open spec fn json_items(value: Option<JsonView>) -> Option<Seq<JsonView>> {
    match value {
        Some(JsonView::List(items)) => Some(items),
        _ => None,
    }
}

/// The number of a value, where it is a whole one that is not negative.
pub open spec fn json_number(value: Option<JsonView>) -> Option<u64> {
    match value {
        Some(JsonView::Number(number)) => Some(number),
        _ => None,
    }
}

impl Json {
    fn place_of(&self, key: &str) -> (place: Option<usize>)
        ensures
            match place {
                Some(at) => *self matches Json::Object(entries) && at < entries@.len() && member(
                    self.view(),
                    key@,
                ) == Some(entries@[at as int].1.view()),
                None => member(self.view(), key@) is None,
            },
    {
        match self {
            Json::Object(entries) => {
                let ghost all = self.view()->Object_0;
                let count: usize = entries.len();
                let mut index: usize = 0;
                assert(all.skip(0) =~= all);
                while index < count
                    invariant
                        index <= count,
                        count == entries@.len(),
                        *self == Json::Object(*entries),
                        self.view() == JsonView::Object(all),
                        all.len() == entries@.len(),
                        forall|k: int|
                            0 <= k < all.len() ==> #[trigger] all[k] == (
                                entries@[k].0@,
                                entries@[k].1.view(),
                            ),
                        entry(all, key@) == entry(all.skip(index as int), key@),
                    decreases count - index,
                {
                    assert(all.skip(index as int)[0] == all[index as int]);
                    assert(all.skip(index as int).skip(1) =~= all.skip(index + 1));
                    if same_text(entries[index].0.as_str(), key) {
                        return Some(index);
                    }
                    index = index + 1;
                }
                None
            },
            _ => None,
        }
    }

    /// Finds a member of the value, where it is an object with one.
    pub fn get(&self, key: &str) -> (found: Option<&Json>)
        ensures
            match found {
                Some(found) => member(self.view(), key@) == Some(found.view()),
                None => member(self.view(), key@) is None,
            },
    {
        match self.place_of(key) {
            Some(at) => match self {
                Json::Object(entries) => Some(&entries[at].1),
                _ => None,
            },
            None => None,
        }
    }

    /// Takes a member out of the value, where it is an object with one.
    pub fn take(self, key: &str) -> (found: Option<Json>)
        ensures
            opt_json(found) == member(self.view(), key@),
    {
        let place: Option<usize> = self.place_of(key);
        match place {
            Some(at) => match self {
                Json::Object(entries) => {
                    let mut rest = entries;
                    let (_, found) = rest.swap_remove(at);
                    Some(found)
                },
                _ => None,
            },
            None => None,
        }
    }

    /// The text of the value, where it is one.
    pub fn as_str(&self) -> (text: Option<&str>)
        ensures
            match text {
                Some(text) => json_text(Some(self.view())) == Some(text@),
                None => json_text(Some(self.view())) is None,
            },
    {
        match self {
            Json::Text(text) => Some(text.as_str()),
            _ => None,
        }
    }

    /// The items of the value, where it is a list.
    pub fn as_array(&self) -> (items: Option<&Vec<Json>>)
        ensures
            match items {
                Some(items) => json_items(Some(self.view())) == Some(json_views(items@)),
                None => json_items(Some(self.view())) is None,
            },
    {
        match self {
            Json::List(items) => {
                assert(self.view()->List_0 =~= json_views(items@));
                Some(items)
            },
            _ => None,
        }
    }

    /// The number of the value, where it is a whole one that is not negative.
    pub fn as_u64(&self) -> (number: Option<u64>)
        ensures
            number == json_number(Some(self.view())),
    {
        match self {
            Json::Number(number) => Some(*number),
            _ => None,
        }
    }
}

/// An object with some members, in this order.
pub(crate) fn object(entries: Vec<(String, Json)>) -> (value: Json)
    ensures
        value.view() == JsonView::Object(entry_views(entries@)),
{
    let value = Json::Object(entries);
    assert(value.view()->Object_0 =~= entry_views(entries@));
    value
}

/// Members of an object by their texts and their contents.
pub open spec fn entry_views(entries: Seq<(String, Json)>) -> Seq<(Seq<char>, JsonView)> {
    entries.map_values(|entry: (String, Json)| (entry.0@, entry.1.view()))
}

/// A JSON value of `serde_json`, of which nothing is known here.
#[verifier::external_type_specification]
#[verifier::external_body]
pub struct ExValue(serde_json::Value);

/// The value that a text stands for, as `serde_json::from_str` reads it.
pub uninterp spec fn parsed_json(text: Seq<char>) -> Option<JsonView>;

/// The text of a value, as `serde_json::Value::to_string` writes it.
pub uninterp spec fn rendered_json(value: JsonView) -> Seq<char>;

/// A value of `serde_json` as one of this library, variant by variant.
#[verifier::external_body]
fn json_of(value: serde_json::Value) -> Json {
    match value {
        serde_json::Value::Null => Json::Null,
        serde_json::Value::Bool(flag) => Json::Bool(flag),
        serde_json::Value::Number(number) => match number.as_u64() {
            Some(whole) => Json::Number(whole),
            None => Json::OtherNumber(number.to_string()),
        },
        serde_json::Value::String(text) => Json::Text(text),
        serde_json::Value::Array(items) => Json::List(items.into_iter().map(json_of).collect()),
        serde_json::Value::Object(entries) => Json::Object(
            entries.into_iter().map(|(key, value)| (key, json_of(value))).collect(),
        ),
    }
}

/// A value of this library as one of `serde_json`, variant by variant. The text of a number is read
/// by `serde_json`'s numbers; one that they do not read becomes null.
#[verifier::external_body]
fn value_of(value: &Json) -> serde_json::Value {
    match value {
        Json::Null => serde_json::Value::Null,
        Json::Bool(flag) => serde_json::Value::Bool(*flag),
        Json::Number(whole) => serde_json::Value::from(*whole),
        Json::OtherNumber(text) => text.parse().map_or(
            serde_json::Value::Null,
            serde_json::Value::Number,
        ),
        Json::Text(text) => serde_json::Value::String(text.clone()),
        Json::List(items) => serde_json::Value::Array(items.iter().map(value_of).collect()),
        Json::Object(entries) => serde_json::Value::Object(
            entries.iter().map(|(key, value)| (key.clone(), value_of(value))).collect(),
        ),
    }
}

/// `serde_json::from_str` reads a text as a JSON value, or refuses it. What it reads depends on the
/// text alone.
#[verifier::external_body]
pub(crate) fn parse_json(text: &str) -> (value: Option<Json>)
    ensures
        opt_json(value) == parsed_json(text@),
{
    serde_json::from_str::<serde_json::Value>(text).ok().map(json_of)
}

/// `serde_json::Value::to_string` writes a value as compact JSON text, which depends on the value
/// alone.
#[verifier::external_body]
pub(crate) fn render_json(value: &Json) -> (text: String)
    ensures
        text@ == rendered_json(value.view()),
{
    value_of(value).to_string()
}

impl Json {
    /// Reads a text as a JSON value, where it is one.
    pub fn read(text: &str) -> (value: Option<Json>)
        ensures
            opt_json(value) == parsed_json(text@),
    {
        parse_json(text)
    }

    /// Writes the value as compact JSON text.
    pub fn to_text(&self) -> (text: String)
        ensures
            text@ == rendered_json(self.view()),
    {
        render_json(self)
    }
}

} // verus!
