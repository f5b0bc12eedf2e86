//! JSON values, and the bridge to `serde_json`.
//!
//! The library's own logic reads and builds `Json`. Text is turned into JSON
//! and back by `serde_json`, behind the trusted functions at the end.
use vstd::prelude::*;

use crate::text::same_text;

verus! {

/// `serde_json::Number`, carried through without being looked into.
#[verifier::external_type_specification]
#[verifier::external_body]
pub struct ExNumber(serde_json::Number);

/// Cloning a `serde_json::Number` gives the same number.
pub assume_specification[ <serde_json::Number as Clone>::clone ](
    number: &serde_json::Number,
) -> (copy: serde_json::Number)
    ensures
        copy == *number,
;

/// A JSON value. Of entries with the same key in an object the last counts.
#[derive(Debug, PartialEq)]
pub enum Json {
    Null,
    Bool(bool),
    Number(serde_json::Number),
    Text(String),
    Array(Vec<Json>),
    Object(Vec<(String, Json)>),
}

/// What a JSON value is: its shape, with objects as maps.
pub enum JsonView {
    Null,
    Bool(bool),
    Number(serde_json::Number),
    Text(Seq<char>),
    Array(Seq<JsonView>),
    Object(Map<Seq<char>, JsonView>),
}

/// The values that a list of JSON values holds.
pub open spec fn values(list: Seq<Json>) -> Seq<JsonView>
    decreases list,
{
    Seq::new(
        list.len(),
        |i: int|
            if 0 <= i < list.len() {
                list[i].view()
            } else {
                JsonView::Null
            },
    )
}

/// The map that the entries of an object make, later ones taking the place
/// of earlier ones with the same key.
pub open spec fn entry_map(entries: Seq<(String, Json)>) -> Map<Seq<char>, JsonView>
    decreases entries,
{
    if entries.len() == 0 {
        Map::empty()
    } else {
        entry_map(entries.drop_last()).insert(entries.last().0@, entries.last().1.view())
    }
}

impl Json {
    /// The value, objects as maps.
    pub open spec fn view(&self) -> JsonView
        decreases self,
    {
        match self {
            Json::Null => JsonView::Null,
            Json::Bool(flag) => JsonView::Bool(*flag),
            Json::Number(number) => JsonView::Number(*number),
            Json::Text(text) => JsonView::Text(text@),
            Json::Array(items) => JsonView::Array(values(items@)),
            Json::Object(entries) => JsonView::Object(entry_map(entries@)),
        }
    }
}

impl JsonView {
    /// What stands under `key`: `None` where the value is no object or has no
    /// such key.
    pub open spec fn field(self, key: Seq<char>) -> Option<JsonView> {
        match self {
            JsonView::Object(map) => if map.dom().contains(key) {
                Some(map[key])
            } else {
                None
            },
            _ => None,
        }
    }

    /// What stands under `key`, or null.
    pub open spec fn at(self, key: Seq<char>) -> JsonView {
        match self.field(key) {
            Some(value) => value,
            None => JsonView::Null,
        }
    }

    /// The text, where the value is one.
    pub open spec fn as_text(self) -> Option<Seq<char>> {
        match self {
            JsonView::Text(text) => Some(text),
            _ => None,
        }
    }

    /// The items, where the value is an array.
    pub open spec fn as_array(self) -> Option<Seq<JsonView>> {
        match self {
            JsonView::Array(items) => Some(items),
            _ => None,
        }
    }

    /// The text that stands under `key`, where one does.
    pub open spec fn text_at(self, key: Seq<char>) -> Option<Seq<char>> {
        self.at(key).as_text()
    }
}

/// The text of an optional text, empty where there is none.
pub open spec fn or_empty(text: Option<Seq<char>>) -> Seq<char> {
    match text {
        Some(text) => text,
        None => Seq::empty(),
    }
}

/// The characters of an optional string slice.
pub open spec fn opt_view(text: Option<&str>) -> Option<Seq<char>> {
    match text {
        Some(text) => Some(text@),
        None => None,
    }
}

/// The value of an optional reference to a JSON value.
pub open spec fn opt_json(value: Option<&Json>) -> Option<JsonView> {
    match value {
        Some(value) => Some(value.view()),
        None => None,
    }
}

impl Json {
    /// A text value.
    pub fn text(text: &str) -> (value: Json)
        ensures
            value@ == JsonView::Text(text@),
    {
        Json::Text(text.to_owned())
    }

    /// What stands under `key`: `None` where the value is no object or has no
    /// such key.
    pub fn get(&self, key: &str) -> (found: Option<&Json>)
        ensures
            opt_json(found) == self@.field(key@),
    {
        match self {
            Json::Object(entries) => {
                let mut i: usize = entries.len();
                assert(entries@.take(i as int) =~= entries@);
                while i > 0
                    invariant
                        i <= entries.len(),
                        self@ == JsonView::Object(entry_map(entries@)),
                        self@.field(key@) == JsonView::Object(
                            entry_map(entries@.take(i as int)),
                        ).field(key@),
                    decreases i,
                {
                    assert(entries@.take(i as int).drop_last() =~= entries@.take(i - 1));
                    assert(entries@.take(i as int).last() == entries@[i - 1]);
                    if same_text(entries[i - 1].0.as_str(), key) {
                        return Some(&entries[i - 1].1);
                    }
                    i -= 1;
                }
                None
            },
            _ => None,
        }
    }

    /// The text, where the value is one.
    pub fn as_str(&self) -> (text: Option<&str>)
        ensures
            opt_view(text) == self@.as_text(),
    {
        match self {
            Json::Text(text) => Some(text.as_str()),
            _ => None,
        }
    }

    /// The text that stands under `key`, where one does.
    pub fn str_at(&self, key: &str) -> (text: Option<&str>)
        ensures
            opt_view(text) == self@.text_at(key@),
    {
        match self.get(key) {
            Some(value) => value.as_str(),
            None => None,
        }
    }

    /// The text that stands under `key`, empty where none does.
    pub fn str_or_empty(&self, key: &str) -> (text: &str)
        ensures
            text@ == or_empty(self@.text_at(key@)),
    {
        match self.str_at(key) {
            Some(text) => text,
            None => {
                proof {
                    reveal_strlit("");
                }
                assert(""@ =~= Seq::<char>::empty());
                ""
            },
        }
    }

    /// A copy of what stands under `key`, or null.
    pub fn copy_at(&self, key: &str) -> (value: Json)
        ensures
            value@ == self@.at(key@),
    {
        match self.get(key) {
            Some(value) => value.clone(),
            None => Json::Null,
        }
    }
}

impl Clone for Json {
    fn clone(&self) -> (copy: Json)
        ensures
            copy@ == self@,
        decreases self,
    {
        match self {
            Json::Null => Json::Null,
            Json::Bool(flag) => Json::Bool(*flag),
            Json::Number(number) => Json::Number(number.clone()),
            Json::Text(text) => Json::Text(text.clone()),
            Json::Array(items) => {
                let mut copies: Vec<Json> = Vec::new();
                let mut i: usize = 0;
                while i < items.len()
                    invariant
                        i <= items.len(),
                        *self == Json::Array(*items),
                        copies.len() == i,
                        forall|k: int|
                            0 <= k < i ==> (#[trigger] copies@[k]).view() == items@[k].view(),
                    decreases items.len() - i,
                {
                    assert(decreases_to!(*self => self->Array_0));
                    assert(decreases_to!(self->Array_0 => self->Array_0@));
                    assert(decreases_to!(items@ => items@[i as int]));
                    copies.push(items[i].clone());
                    i += 1;
                }
                assert(values(copies@) =~= values(items@));
                Json::Array(copies)
            },
            Json::Object(entries) => {
                let mut copies: Vec<(String, Json)> = Vec::new();
                let mut i: usize = 0;
                while i < entries.len()
                    invariant
                        i <= entries.len(),
                        *self == Json::Object(*entries),
                        entry_map(copies@) == entry_map(entries@.take(i as int)),
                    decreases entries.len() - i,
                {
                    assert(decreases_to!(*self => self->Object_0));
                    assert(decreases_to!(self->Object_0 => self->Object_0@));
                    assert(decreases_to!(entries@ => entries@[i as int]));
                    assert(decreases_to!(entries@[i as int] => entries@[i as int].1));
                    let ghost before = copies@;
                    let copy: (String, Json) = (entries[i].0.clone(), entries[i].1.clone());
                    copies.push(copy);
                    i += 1;
                    proof {
                        assert(copies@.drop_last() =~= before);
                        assert(entries@.take(i as int).drop_last() =~= entries@.take(i - 1));
                        assert(entries@.take(i as int).last() == entries@[i - 1]);
                    }
                }
                assert(entries@.take(i as int) =~= entries@);
                Json::Object(copies)
            },
        }
    }
}

/// Puts an entry behind the others: what stood under `key` is no longer seen.
pub fn put(entries: &mut Vec<(String, Json)>, key: &str, value: Json)
    ensures
        entry_map(final(entries)@) == entry_map(old(entries)@).insert(key@, value@),
{
    let ghost before = entries@;
    entries.push((key.to_owned(), value));
    assert(entries@.drop_last() =~= before);
}

/// Whether a value is an object all of whose keys are listed.
pub open spec fn has_only(value: JsonView, keys: Seq<Seq<char>>) -> bool {
    value matches JsonView::Object(map) && forall|key: Seq<char>| #[trigger]
        map.dom().contains(key) ==> keys.contains(key)
}

proof fn lemma_entry_keys(entries: Seq<(String, Json)>, key: Seq<char>)
    ensures
        entry_map(entries).dom().contains(key) <==> exists|i: int|
            0 <= i < entries.len() && #[trigger] entries[i].0@ == key,
    decreases entries.len(),
{
    if entries.len() > 0 {
        let before = entries.drop_last();
        lemma_entry_keys(before, key);
        if entry_map(before).dom().contains(key) {
            let i = choose|i: int| 0 <= i < before.len() && #[trigger] before[i].0@ == key;
            assert(entries[i].0@ == key);
        }
        if entries.last().0@ == key {
            assert(entries[entries.len() - 1].0@ == key);
        }
        if exists|i: int| 0 <= i < entries.len() && #[trigger] entries[i].0@ == key {
            let i = choose|i: int| 0 <= i < entries.len() && #[trigger] entries[i].0@ == key;
            if i < before.len() {
                assert(before[i].0@ == key);
            }
        }
    }
}

/// Whether the text is one of the list.
fn is_listed(text: &str, list: &Vec<&str>) -> (found: bool)
    ensures
        found == str_views(list@).contains(text@),
{
    let mut i: usize = 0;
    while i < list.len()
        invariant
            i <= list.len(),
            forall|k: int| 0 <= k < i ==> (#[trigger] list@[k])@ != text@,
        decreases list.len() - i,
    {
        if same_text(list[i], text) {
            assert(str_views(list@)[i as int] == text@);
            return true;
        }
        i += 1;
    }
    false
}

/// The characters of string slices.
pub open spec fn str_views(list: Seq<&str>) -> Seq<Seq<char>> {
    Seq::new(list.len(), |i: int| list[i]@)
}

/// Whether a value is an object all of whose keys are listed.
pub fn only_keys(value: &Json, keys: &Vec<&str>) -> (found: bool)
    ensures
        found == has_only(value@, str_views(keys@)),
{
    match value {
        Json::Object(entries) => {
            let mut i: usize = 0;
            while i < entries.len()
                invariant
                    i <= entries.len(),
                    value@ == JsonView::Object(entry_map(entries@)),
                    forall|k: int|
                        0 <= k < i ==> str_views(keys@).contains((#[trigger] entries@[k]).0@),
                decreases entries.len() - i,
            {
                if !is_listed(entries[i].0.as_str(), keys) {
                    proof {
                        let key = entries@[i as int].0@;
                        lemma_entry_keys(entries@, key);
                        assert(entries@[i as int].0@ == key);
                        assert(value@->Object_0.dom().contains(key));
                        assert(!str_views(keys@).contains(key));
                    }
                    return false;
                }
                i += 1;
            }
            assert forall|key: Seq<char>| #[trigger]
                entry_map(entries@).dom().contains(key) implies str_views(keys@).contains(key) by {
                lemma_entry_keys(entries@, key);
            }
            true
        },
        _ => false,
    }
}

/// Appends a value to a list of values.
pub proof fn lemma_values_push(list: Seq<Json>, value: Json)
    ensures
        values(list.push(value)) == values(list).push(value@),
{
    assert(values(list.push(value)) =~= values(list).push(value@));
}

/// A copy of a list of values.
pub fn copy_values(list: &Vec<Json>) -> (copy: Vec<Json>)
    ensures
        values(copy@) == values(list@),
{
    let mut copy: Vec<Json> = Vec::new();
    let mut i: usize = 0;
    while i < list.len()
        invariant
            i <= list.len(),
            copy.len() == i,
            forall|k: int| 0 <= k < i ==> (#[trigger] copy@[k]).view() == list@[k].view(),
        decreases list.len() - i,
    {
        copy.push(list[i].clone());
        i += 1;
    }
    assert(values(copy@) =~= values(list@));
    copy
}

// ---------------------------------------------------------------------------
// serde_json
// ---------------------------------------------------------------------------
/// `serde_json::Value`, the form in which `serde_json` reads and writes.
#[verifier::external_type_specification]
#[verifier::external_body]
pub struct ExValue(serde_json::Value);

/// What a `serde_json::Value` holds.
pub uninterp spec fn value_held(value: serde_json::Value) -> JsonView;

/// The number that `serde_json` makes of an unsigned integer.
pub uninterp spec fn number_of(number: u32) -> serde_json::Number;

/// The text without spaces that `serde_json::to_string` writes of a value.
pub uninterp spec fn compact_json(value: JsonView) -> Seq<char>;

/// The indented text that `serde_json::to_string_pretty` writes of a value.
pub uninterp spec fn pretty_json(value: JsonView) -> Seq<char>;

/// The value that `serde_json::from_str` reads in a text, where there is one.
pub uninterp spec fn parsed_json(text: Seq<char>) -> Option<JsonView>;

/// The key that `serde_json` keeps for values that it passes on unread: an
/// object that begins with it is not read as an object.
pub open spec fn raw_key() -> Seq<char> {
    "$serde_json::private::RawValue"@
}

/// Whether the value holds no number, has no object with the key that
/// `serde_json` keeps for itself, and nests no deeper than `depth`.
pub open spec fn plain(value: JsonView, depth: nat) -> bool
    decreases depth,
{
    match value {
        JsonView::Number(_) => false,
        JsonView::Array(items) => depth > 0 && forall|i: int|
            0 <= i < items.len() ==> plain(#[trigger] items[i], (depth - 1) as nat),
        JsonView::Object(map) => depth > 0 && !map.dom().contains(raw_key()) && forall|
            key: Seq<char>,
        |
            map.dom().contains(key) ==> plain(#[trigger] map[key], (depth - 1) as nat),
        _ => true,
    }
}

/// `serde_json::Number::from` of a `u32`.
#[verifier::external_body]
fn number_from(number: u32) -> (made: serde_json::Number)
    ensures
        made == number_of(number),
{
    serde_json::Number::from(number)
}

/// Turns a JSON value into the `serde_json::Value` of the same shape. The
/// entries of an object go into a `serde_json::Map` one after the other, with
/// `serde_json::Map::insert`, by which a later one replaces an earlier one of
/// the same key.
#[verifier::external_body]
fn to_serde(value: &Json) -> (made: serde_json::Value)
    ensures
        value_held(made) == value@,
{
    match value {
        Json::Null => serde_json::Value::Null,
        Json::Bool(flag) => serde_json::Value::Bool(*flag),
        Json::Number(number) => serde_json::Value::Number(number.clone()),
        Json::Text(text) => serde_json::Value::String(text.clone()),
        Json::Array(items) => serde_json::Value::Array(items.iter().map(to_serde).collect()),
        Json::Object(entries) => {
            let mut map = serde_json::Map::new();
            for entry in entries {
                map.insert(entry.0.clone(), to_serde(&entry.1));
            }
            serde_json::Value::Object(map)
        },
    }
}

/// Turns a `serde_json::Value` into the JSON value of the same shape.
#[verifier::external_body]
fn from_serde(value: serde_json::Value) -> (made: Json)
    ensures
        made@ == value_held(value),
{
    match value {
        serde_json::Value::Null => Json::Null,
        serde_json::Value::Bool(flag) => Json::Bool(flag),
        serde_json::Value::Number(number) => Json::Number(number),
        serde_json::Value::String(text) => Json::Text(text),
        serde_json::Value::Array(items) => Json::Array(items.into_iter().map(from_serde).collect()),
        serde_json::Value::Object(map) => Json::Object(
            map.into_iter().map(|entry| (entry.0, from_serde(entry.1))).collect(),
        ),
    }
}

/// `serde_json::to_string`: the value as text without spaces. A `Value` has
/// text for keys, so writing it does not fail. Where it holds no number, none
/// of its objects has the key that `serde_json` keeps for itself, and it is
/// not nested too deeply for the reader, `serde_json::from_str` reads the same
/// value back.
#[verifier::external_body]
fn write_compact(value: &serde_json::Value) -> (text: Option<String>)
    ensures
        text is Some,
        text->0@ == compact_json(value_held(*value)),
        plain(value_held(*value), 100) ==> parsed_json(text->0@) == Some(value_held(*value)),
{
    serde_json::to_string(value).ok()
}

/// `serde_json::to_string_pretty`: the value as indented text. As for
/// `serde_json::to_string`, writing does not fail, and under the same
/// conditions the value is read back.
#[verifier::external_body]
fn write_pretty(value: &serde_json::Value) -> (text: Option<String>)
    ensures
        text is Some,
        text->0@ == pretty_json(value_held(*value)),
        plain(value_held(*value), 100) ==> parsed_json(text->0@) == Some(value_held(*value)),
{
    serde_json::to_string_pretty(value).ok()
}

/// `serde_json::from_str`: the value that a text writes, `None` where the
/// text is not JSON.
#[verifier::external_body]
fn read_value(text: &str) -> (value: Option<serde_json::Value>)
    ensures
        value is Some <==> parsed_json(text@) is Some,
        value is Some ==> value_held(value->0) == parsed_json(text@)->0,
{
    serde_json::from_str(text).ok()
}

impl Json {
    /// An unsigned number.
    pub fn number(number: u32) -> (value: Json)
        ensures
            value@ == JsonView::Number(number_of(number)),
    {
        Json::Number(number_from(number))
    }

    /// The value as text without spaces.
    pub fn to_compact(&self) -> (text: Option<String>)
        ensures
            text is Some,
            text->0@ == compact_json(self@),
            plain(self@, 100) ==> parsed_json(text->0@) == Some(self@),
    {
        write_compact(&to_serde(self))
    }

    /// The value as indented text.
    pub fn to_pretty(&self) -> (text: Option<String>)
        ensures
            text is Some,
            text->0@ == pretty_json(self@),
            plain(self@, 100) ==> parsed_json(text->0@) == Some(self@),
    {
        write_pretty(&to_serde(self))
    }

    /// The value that `text` writes: `None` where it is not JSON.
    pub fn parse(text: &str) -> (value: Option<Json>)
        ensures
            value is Some <==> parsed_json(text@) is Some,
            value is Some ==> value->0@ == parsed_json(text@)->0,
    {
        match read_value(text) {
            Some(value) => Some(from_serde(value)),
            None => None,
        }
    }
}

} // verus!
