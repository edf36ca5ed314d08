//! JSON documents: the values that the plugin reads and writes, and their mathematical model.
use vstd::prelude::*;

use crate::text::same_text;

verus! {

/// serde_json's number type. The library keeps such a number only where it is no `i64`.
#[verifier::external_type_specification]
#[verifier::external_body]
pub struct ExNumber(serde_json::Number);

/// serde_json's document type, met only between a text and a `Json`.
#[verifier::external_type_specification]
#[verifier::external_body]
pub struct ExValue(serde_json::Value);

/// A JSON document.
#[derive(Debug, PartialEq)]
pub enum Json {
    Null,
    Bool(bool),
    /// An integer that fits in an `i64`.
    Int(i64),
    /// Any other number.
    Num(serde_json::Number),
    Str(String),
    Array(Vec<Json>),
    /// The members in the order in which they were added; of two with the same name the later
    /// one counts.
    Object(Vec<(String, Json)>),
}

/// The mathematical model of a JSON document. An object is a map: the order of its members
/// does not matter.
pub enum JsonView {
    Null,
    Bool(bool),
    Int(i64),
    Num(serde_json::Number),
    Str(Seq<char>),
    Array(Seq<JsonView>),
    Object(Map<Seq<char>, JsonView>),
}

/// The integer that `serde_json::Number::as_i64` finds in a number.
pub uninterp spec fn number_i64(number: serde_json::Number) -> Option<i64>;

/// The document that a number is.
pub open spec fn number_view(number: serde_json::Number) -> JsonView {
    match number_i64(number) {
        Some(i) => JsonView::Int(i),
        None => JsonView::Num(number),
    }
}

/// `serde_json::Number::as_i64`. Taken on trust: the answer depends on the number alone.
#[verifier::external_body]
pub(crate) fn number_to_integer(number: &serde_json::Number) -> (r: Option<i64>)
    ensures
        r == number_i64(*number),
{
    number.as_i64()
}

/// The map that a list of members stands for: a later member replaces an earlier one of the
/// same name.
pub open spec fn entries_map(entries: Seq<(Seq<char>, JsonView)>) -> Map<Seq<char>, JsonView>
    decreases entries.len(),
{
    if entries.len() == 0 {
        Map::empty()
    } else {
        entries_map(entries.drop_last()).insert(entries.last().0, entries.last().1)
    }
}

/// The object with the given members.
pub open spec fn object_of(entries: Seq<(Seq<char>, JsonView)>) -> JsonView {
    JsonView::Object(entries_map(entries))
}

/// The model of a document.
pub open spec fn json_model(json: Json) -> JsonView
    decreases json,
{
    match json {
        Json::Null => JsonView::Null,
        Json::Bool(b) => JsonView::Bool(b),
        Json::Int(i) => JsonView::Int(i),
        Json::Num(n) => number_view(n),
        Json::Str(s) => JsonView::Str(s@),
        Json::Array(items) => JsonView::Array(array_views(items@)),
        Json::Object(entries) => object_of(entry_views(entries@)),
    }
}

/// The models of the items of an array.
pub open spec fn array_views(items: Seq<Json>) -> Seq<JsonView>
    decreases items,
{
    Seq::new(
        items.len(),
        |i: int|
            if 0 <= i < items.len() {
                json_model(items[i])
            } else {
                JsonView::Null
            },
    )
}

/// The models of the members of an object.
pub open spec fn entry_views(entries: Seq<(String, Json)>) -> Seq<(Seq<char>, JsonView)>
    decreases entries,
{
    Seq::new(
        entries.len(),
        |i: int|
            if 0 <= i < entries.len() {
                (entries[i].0@, json_model(entries[i].1))
            } else {
                (Seq::empty(), JsonView::Null)
            },
    )
}

impl View for Json {
    type V = JsonView;

    open spec fn view(&self) -> JsonView {
        json_model(*self)
    }
}

/// The model of a document that may be missing.
pub open spec fn opt_view(json: Option<&Json>) -> Option<JsonView> {
    match json {
        Some(j) => Some(j@),
        None => None,
    }
}

/// The characters of a text that may be missing.
pub open spec fn opt_text(text: Option<&str>) -> Option<Seq<char>> {
    match text {
        Some(s) => Some(s@),
        None => None,
    }
}

impl JsonView {
    /// The member `key` of an object; `None` where there is none, or no object.
    pub open spec fn get(self, key: Seq<char>) -> Option<JsonView> {
        match self {
            JsonView::Object(map) => if map.contains_key(key) {
                Some(map[key])
            } else {
                None
            },
            _ => None,
        }
    }

    /// The characters of a string; `None` of anything else.
    pub open spec fn as_str(self) -> Option<Seq<char>> {
        match self {
            JsonView::Str(s) => Some(s),
            _ => None,
        }
    }

    /// The items of an array; `None` of anything else.
    pub open spec fn as_array(self) -> Option<Seq<JsonView>> {
        match self {
            JsonView::Array(items) => Some(items),
            _ => None,
        }
    }

    /// The string that the member `key` is.
    pub open spec fn str_at(self, key: Seq<char>) -> Option<Seq<char>> {
        match self.get(key) {
            Some(v) => v.as_str(),
            None => None,
        }
    }

    /// The array that the member `key` is.
    pub open spec fn array_at(self, key: Seq<char>) -> Option<Seq<JsonView>> {
        match self.get(key) {
            Some(v) => v.as_array(),
            None => None,
        }
    }

    /// The integer that the member `key` is, 0 where it is none.
    pub open spec fn int_at(self, key: Seq<char>) -> i64 {
        match self.get(key) {
            Some(JsonView::Int(i)) => i,
            _ => 0,
        }
    }
}

/// The text, or the empty one.
pub open spec fn or_empty(text: Option<Seq<char>>) -> Seq<char> {
    match text {
        Some(s) => s,
        None => Seq::empty(),
    }
}

/// A member that no later one of its name replaces is in the map.
pub proof fn lemma_entries_map_at(entries: Seq<(Seq<char>, JsonView)>, i: int)
    requires
        0 <= i < entries.len(),
        forall|j: int| i < j < entries.len() ==> entries[j].0 != entries[i].0,
    ensures
        entries_map(entries).contains_key(entries[i].0),
        entries_map(entries)[entries[i].0] == entries[i].1,
    decreases entries.len(),
{
    if i < entries.len() - 1 {
        lemma_entries_map_at(entries.drop_last(), i);
    }
}

/// A name that no member has is not in the map.
pub proof fn lemma_entries_map_absent(entries: Seq<(Seq<char>, JsonView)>, key: Seq<char>)
    requires
        forall|j: int| 0 <= j < entries.len() ==> entries[j].0 != key,
    ensures
        !entries_map(entries).contains_key(key),
    decreases entries.len(),
{
    if entries.len() > 0 {
        lemma_entries_map_absent(entries.drop_last(), key);
    }
}

/// A list has finitely many members.
pub proof fn lemma_entries_map_finite(entries: Seq<(Seq<char>, JsonView)>)
    ensures
        entries_map(entries).dom().finite(),
    decreases entries.len(),
{
    if entries.len() > 0 {
        lemma_entries_map_finite(entries.drop_last());
    }
}

impl Json {
    /// The member `key` of an object.
    pub fn get(&self, key: &str) -> (r: Option<&Json>)
        ensures
            opt_view(r) == self@.get(key@),
    {
        match self {
            Json::Object(entries) => {
                let ghost views = entry_views(entries@);
                let mut i: usize = entries.len();
                while i > 0
                    invariant
                        i <= entries@.len(),
                        views == entry_views(entries@),
                        self@ == object_of(views),
                        forall|j: int| i <= j < entries@.len() ==> views[j].0 != key@,
                    decreases i,
                {
                    i = i - 1;
                    assert(views[i as int] == (entries@[i as int].0@, entries@[i as int].1@));
                    if same_text(entries[i].0.as_str(), key) {
                        proof {
                            lemma_entries_map_at(views, i as int);
                        }
                        return Some(&entries[i].1);
                    }
                }
                proof {
                    lemma_entries_map_absent(views, key@);
                }
                None
            },
            _ => None,
        }
    }

    /// The text of a string.
    pub fn as_str(&self) -> (r: Option<&str>)
        ensures
            opt_text(r) == self@.as_str(),
    {
        match self {
            Json::Str(s) => Some(s.as_str()),
            _ => None,
        }
    }

    /// The items of an array.
    pub fn as_array(&self) -> (r: Option<&Vec<Json>>)
        ensures
            match r {
                Some(items) => self@.as_array() == Some(array_views(items@)),
                None => self@.as_array() is None,
            },
    {
        match self {
            Json::Array(items) => Some(items),
            _ => None,
        }
    }

    /// The text that the member `key` is.
    pub fn str_at(&self, key: &str) -> (r: Option<&str>)
        ensures
            opt_text(r) == self@.str_at(key@),
    {
        match self.get(key) {
            Some(v) => v.as_str(),
            None => None,
        }
    }

    /// The items of the array that the member `key` is.
    pub fn array_at(&self, key: &str) -> (r: Option<&Vec<Json>>)
        ensures
            match r {
                Some(items) => self@.array_at(key@) == Some(array_views(items@)),
                None => self@.array_at(key@) is None,
            },
    {
        match self.get(key) {
            Some(v) => v.as_array(),
            None => None,
        }
    }

    /// The integer that the member `key` is, 0 where it is none.
    pub fn int_at(&self, key: &str) -> (r: i64)
        ensures
            r == self@.int_at(key@),
    {
        match self.get(key) {
            Some(Json::Int(i)) => *i,
            Some(Json::Num(n)) => match number_to_integer(n) {
                Some(i) => i,
                None => 0,
            },
            _ => 0,
        }
    }
}

/// The string document of a text.
pub fn text_json(s: &str) -> (r: Json)
    ensures
        r@ == JsonView::Str(s@),
{
    Json::Str(s.to_owned())
}

/// A member of an object.
pub fn member(key: &str, value: Json) -> (r: (String, Json))
    ensures
        r.0@ == key@,
        r.1 == value,
{
    (key.to_owned(), value)
}

/// `serde_json::Number`'s `clone`, which is derived. Taken on trust: the clone of a number is
/// that number.
pub assume_specification[ <serde_json::Number as Clone>::clone ](
    number: &serde_json::Number,
) -> (r: serde_json::Number)
    ensures
        r == *number,
;

impl Clone for Json {
    fn clone(&self) -> (r: Self)
        ensures
            r@ == self@,
        decreases self,
    {
        match self {
            Json::Null => Json::Null,
            Json::Bool(b) => Json::Bool(*b),
            Json::Int(i) => Json::Int(*i),
            Json::Num(n) => Json::Num(n.clone()),
            Json::Str(s) => Json::Str(s.clone()),
            Json::Array(items) => {
                let mut out: Vec<Json> = Vec::new();
                let mut i: usize = 0;
                while i < items.len()
                    invariant
                        *self == Json::Array(*items),
                        i <= items@.len(),
                        out@.len() == i,
                        forall|k: int| 0 <= k < i ==> out@[k]@ == items@[k]@,
                    decreases items@.len() - i,
                {
                    let item: &Json = &items[i];
                    assert(decreases_to!(self->Array_0 => self->Array_0@));
                    assert(decreases_to!(self->Array_0@ => self->Array_0@[i as int]));
                    out.push(item.clone());
                    i = i + 1;
                }
                assert(array_views(out@) =~= array_views(items@));
                Json::Array(out)
            },
            Json::Object(entries) => {
                let mut out: Vec<(String, Json)> = Vec::new();
                let mut i: usize = 0;
                while i < entries.len()
                    invariant
                        *self == Json::Object(*entries),
                        i <= entries@.len(),
                        out@.len() == i,
                        forall|k: int|
                            0 <= k < i ==> out@[k].0@ == entries@[k].0@ && out@[k].1@
                                == entries@[k].1@,
                    decreases entries@.len() - i,
                {
                    let entry: &(String, Json) = &entries[i];
                    assert(decreases_to!(self->Object_0 => self->Object_0@));
                    assert(decreases_to!(self->Object_0@ => self->Object_0@[i as int]));
                    assert(decreases_to!(self->Object_0@[i as int] => self->Object_0@[i as int].1));
                    out.push((entry.0.clone(), entry.1.clone()));
                    i = i + 1;
                }
                assert(entry_views(out@) =~= entry_views(entries@));
                Json::Object(out)
            },
        }
    }
}

} // verus!
