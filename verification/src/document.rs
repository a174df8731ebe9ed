//! A structured document: the tree of objects, arrays and primitives that the
//! embedded data of a page is parsed into.

use vstd::prelude::*;

verus! {

/// One value of a structured document.
#[derive(Debug, PartialEq, Eq)]
pub enum Json {
    Null,
    Bool(bool),
    /// A number, as sign (true for positive), mantissa and decimal exponent.
    Number((bool, u64, i16)),
    Text(String),
    Array(Vec<Json>),
    /// The entries of an object, in the order in which they were written.
    Object(Vec<(String, Json)>),
}

/// A value of a structured document, as contracts see it.
pub enum JsonView {
    Null,
    Bool(bool),
    Number { positive: bool, mantissa: int, exponent: int },
    Text(Seq<char>),
    Array(Seq<JsonView>),
    /// The keys of an object and, at the same indices, their values.
    Object { keys: Seq<Seq<char>>, values: Seq<JsonView> },
}

impl View for Json {
    type V = JsonView;

    open spec fn view(&self) -> JsonView
        decreases self,
    {
        match self {
            Json::Null => JsonView::Null,
            Json::Bool(b) => JsonView::Bool(*b),
            Json::Number(parts) => JsonView::Number {
                positive: parts.0,
                mantissa: parts.1 as int,
                exponent: parts.2 as int,
            },
            Json::Text(s) => JsonView::Text(s@),
            Json::Array(items) => JsonView::Array(
                Seq::new(
                    items@.len(),
                    |i: int|
                        if 0 <= i < items@.len() {
                            items@[i].view()
                        } else {
                            JsonView::Null
                        },
                ),
            ),
            Json::Object(entries) => JsonView::Object {
                keys: Seq::new(entries@.len(), |i: int| entries@[i].0@),
                values: Seq::new(
                    entries@.len(),
                    |i: int|
                        if 0 <= i < entries@.len() {
                            entries@[i].1.view()
                        } else {
                            JsonView::Null
                        },
                ),
            },
        }
    }
}

/// The views of the values, in order.
pub open spec fn json_views(values: Seq<Json>) -> Seq<JsonView> {
    values.map_values(|v: Json| v@)
}

/// The value at the first index at which `keys` holds `key`.
pub open spec fn first_keyed(keys: Seq<Seq<char>>, values: Seq<JsonView>, key: Seq<char>) -> Option<
    JsonView,
>
    decreases keys.len(),
{
    if keys.len() == 0 || values.len() == 0 {
        None
    } else if keys[0] == key {
        Some(values[0])
    } else {
        first_keyed(keys.skip(1), values.skip(1), key)
    }
}

impl JsonView {
    /// The value under `key`, where `self` is an object that has the key: of
    /// several entries with the key, the first.
    pub open spec fn field(self, key: Seq<char>) -> Option<JsonView> {
        match self {
            JsonView::Object { keys, values } => first_keyed(keys, values, key),
            _ => None,
        }
    }

    /// The text, where `self` is one.
    pub open spec fn text(self) -> Option<Seq<char>> {
        match self {
            JsonView::Text(s) => Some(s),
            _ => None,
        }
    }

    /// The members of an array; of anything else, none.
    pub open spec fn members(self) -> Seq<JsonView> {
        match self {
            JsonView::Array(items) => items,
            _ => Seq::empty(),
        }
    }
}

impl Json {
    /// The value under `key`, if `self` is an object that has the key.
    pub fn field(&self, key: &str) -> (r: Option<&Json>)
        ensures
            match r {
                Some(v) => self@.field(key@) == Some(v@),
                None => self@.field(key@) is None,
            },
    {
        match self {
            Json::Object(entries) => {
                let wanted = key.to_owned();
                let ghost keys = self@->keys;
                let ghost values = self@->values;
                let mut i: usize = 0;
                assert(keys.skip(0) =~= keys && values.skip(0) =~= values);
                while i < entries.len()
                    invariant
                        i <= entries.len(),
                        wanted@ == key@,
                        keys.len() == entries.len(),
                        values.len() == entries.len(),
                        forall|j: int| 0 <= j < entries.len() ==> #[trigger] keys[j] == entries@[j].0@,
                        forall|j: int|
                            0 <= j < entries.len() ==> #[trigger] values[j] == entries@[j].1@,
                        self@.field(key@) == first_keyed(
                            keys.skip(i as int),
                            values.skip(i as int),
                            key@,
                        ),
                    decreases entries.len() - i,
                {
                    assert(keys.skip(i as int).skip(1) =~= keys.skip(i + 1));
                    assert(values.skip(i as int).skip(1) =~= values.skip(i + 1));
                    assert(keys.skip(i as int)[0] == keys[i as int]);
                    assert(values.skip(i as int)[0] == values[i as int]);
                    if entries[i].0 == wanted {
                        return Some(&entries[i].1);
                    }
                    i += 1;
                }
                None
            },
            _ => None,
        }
    }

    /// The text, if `self` is one.
    pub fn as_text(&self) -> (r: Option<&str>)
        ensures
            match r {
                Some(s) => self@.text() == Some(s@),
                None => self@.text() is None,
            },
    {
        match self {
            Json::Text(s) => Some(s.as_str()),
            _ => None,
        }
    }

    /// The members, if `self` is an array.
    pub fn as_members(&self) -> (r: Option<&[Json]>)
        ensures
            match r {
                Some(items) => self@ == JsonView::Array(json_views(items@)),
                None => !(self@ is Array),
            },
    {
        match self {
            Json::Array(items) => {
                assert(self@->Array_0 =~= json_views(items@));
                Some(items.as_slice())
            },
            _ => None,
        }
    }
}

/// The value under `key` in `value`, if there is a value and it has the key.
pub open spec fn field_of(value: Option<JsonView>, key: Seq<char>) -> Option<JsonView> {
    match value {
        Some(v) => v.field(key),
        None => None,
    }
}

/// The text of `value`, if there is a value and it is a text.
pub open spec fn text_of_value(value: Option<JsonView>) -> Option<Seq<char>> {
    match value {
        Some(v) => v.text(),
        None => None,
    }
}

} // verus!
