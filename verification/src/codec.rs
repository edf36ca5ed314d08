//! The codecs that come from elsewhere: JSON text (serde_json), base64 (base64), digests
//! (blake3) and UTF-8 (the standard library). Each is met through a small function whose
//! contract is taken on trust; everything built on them is proved.
use vstd::prelude::*;
use vstd::utf8::*;

use base64::Engine;

use crate::json::{
    array_views, entry_views, lemma_entries_map_at, lemma_entries_map_finite, number_i64,
    number_to_integer, number_view, object_of, Json, JsonView,
};

verus! {

/// What `serde_json::from_slice` makes of the bytes of a JSON text: the document, or the text
/// of its error.
pub uninterp spec fn json_parse(raw: Seq<u8>) -> Result<JsonView, Seq<char>>;

/// The compact text that `serde_json::to_string` prints for a document.
pub uninterp spec fn json_text(json: JsonView) -> Seq<char>;

/// The document that a serde_json value holds.
pub uninterp spec fn value_view(value: serde_json::Value) -> JsonView;

/// The outermost layer of a serde_json value.
pub enum Node {
    Null,
    Bool(bool),
    Number(serde_json::Number),
    Str(String),
    Array(Vec<serde_json::Value>),
    Object(Vec<(String, serde_json::Value)>),
}

/// The documents of the items of an array.
pub open spec fn item_views(items: Seq<serde_json::Value>) -> Seq<JsonView> {
    items.map_values(|v: serde_json::Value| value_view(v))
}

/// The documents of the members of an object.
pub open spec fn member_views(members: Seq<(String, serde_json::Value)>) -> Seq<
    (Seq<char>, JsonView),
> {
    members.map_values(|m: (String, serde_json::Value)| (m.0@, value_view(m.1)))
}

/// The document whose outermost layer is `node`.
pub open spec fn node_view(node: Node) -> JsonView {
    match node {
        Node::Null => JsonView::Null,
        Node::Bool(b) => JsonView::Bool(b),
        Node::Number(n) => number_view(n),
        Node::Str(s) => JsonView::Str(s@),
        Node::Array(items) => JsonView::Array(item_views(items@)),
        Node::Object(members) => object_of(member_views(members@)),
    }
}

/// No two members have the same name.
pub open spec fn distinct_keys(members: Seq<(String, serde_json::Value)>) -> bool {
    forall|i: int, j: int| 0 <= i < j < members.len() ==> members[i].0@ != members[j].0@
}

/// `serde_json::from_slice::<serde_json::Value>`. Taken on trust: what comes back, a value or
/// the text of the error, depends on the bytes alone.
#[verifier::external_body]
fn read_value(raw: &[u8]) -> (r: Result<serde_json::Value, String>)
    ensures
        match r {
            Ok(value) => json_parse(raw@) == Ok::<JsonView, Seq<char>>(value_view(value)),
            Err(e) => json_parse(raw@) == Err::<JsonView, Seq<char>>(e@),
        },
{
    serde_json::from_slice::<serde_json::Value>(raw).map_err(|e| e.to_string())
}

/// Whether all numbers of a document are integers, and no more than `levels` arrays and
/// objects stand inside one another.
pub open spec fn is_plain(json: JsonView, levels: nat) -> bool
    decreases levels,
{
    match json {
        JsonView::Num(_) => false,
        JsonView::Array(items) => levels > 0 && forall|i: int|
            0 <= i < items.len() ==> is_plain(#[trigger] items[i], (levels - 1) as nat),
        JsonView::Object(map) => levels > 0 && forall|key: Seq<char>|
            map.contains_key(key) ==> is_plain(#[trigger] map[key], (levels - 1) as nat),
        _ => true,
    }
}

/// An object is one level above its members.
pub proof fn lemma_plain_object(entries: Seq<(Seq<char>, JsonView)>, levels: nat)
    requires
        forall|i: int| 0 <= i < entries.len() ==> is_plain((#[trigger] entries[i]).1, levels),
    ensures
        is_plain(object_of(entries), levels + 1),
    decreases entries.len(),
{
    if entries.len() > 0 {
        let rest = entries.drop_last();
        assert forall|i: int| 0 <= i < rest.len() implies is_plain(
            (#[trigger] rest[i]).1,
            levels,
        ) by {
            assert(rest[i] == entries[i]);
        }
        lemma_plain_object(rest, levels);
        assert(is_plain(entries[entries.len() - 1].1, levels));
        let before = object_of(rest);
        let after = object_of(entries);
        let inner: nat = (levels + 1 - 1) as nat;
        assert(inner == levels);
        assert forall|key: Seq<char>| after->Object_0.contains_key(key) implies is_plain(
            #[trigger] after->Object_0[key],
            inner,
        ) by {
            if key != entries.last().0 {
                assert(before->Object_0.contains_key(key));
                assert(is_plain(before->Object_0[key], inner));
            }
        }
    }
}

/// More levels allow more documents.
pub proof fn lemma_plain_more(json: JsonView, fewer: nat, more: nat)
    requires
        is_plain(json, fewer),
        fewer <= more,
    ensures
        is_plain(json, more),
    decreases fewer,
{
    match json {
        JsonView::Array(items) => {
            assert forall|i: int| 0 <= i < items.len() implies is_plain(
                #[trigger] items[i],
                (more - 1) as nat,
            ) by {
                lemma_plain_more(items[i], (fewer - 1) as nat, (more - 1) as nat);
            }
        },
        JsonView::Object(map) => {
            assert forall|key: Seq<char>| map.contains_key(key) implies is_plain(
                #[trigger] map[key],
                (more - 1) as nat,
            ) by {
                lemma_plain_more(map[key], (fewer - 1) as nat, (more - 1) as nat);
            }
        },
        _ => {},
    }
}

/// Whether no character of a text comes before the blank: it has neither tabs nor ends of
/// lines.
pub open spec fn has_no_breaks(text: Seq<char>) -> bool {
    forall|i: int| 0 <= i < text.len() ==> ' ' <= #[trigger] text[i]
}

/// `serde_json::to_string` of a `serde_json::Value`. Taken on trust: it does not fail, as the
/// keys of such a value are strings, its numbers are finite and it is written into memory;
/// the text depends on the document alone, as the members of an object are kept and
/// printed in the order of their names; no character in it comes before the blank, as nothing
/// is printed between the tokens and such characters are escaped in strings; and
/// `serde_json::from_slice` reads the document back out of the text. The last is said of
/// documents without fractions, whose digits may be rounded, and of no more than 127 levels,
/// the deepest that is read.
#[verifier::external_body]
fn print_value(value: &serde_json::Value) -> (r: String)
    ensures
        r@ == json_text(value_view(*value)),
        has_no_breaks(r@),
        (is_plain(value_view(*value), 127) ==> json_parse(encode_utf8(r@)) == Ok::<
            JsonView,
            Seq<char>,
        >(value_view(*value))),
{
    serde_json::to_string(value).expect("a JSON value has a text")
}

/// The variants of `serde_json::Value`, and `serde_json::Map`'s `into_iter`. Taken on trust:
/// a value is its outermost layer, and the members of an object come out with distinct names.
#[verifier::external_body]
fn open_value(value: serde_json::Value) -> (node: Node)
    ensures
        node_view(node) == value_view(value),
        node matches Node::Object(members) ==> distinct_keys(members@),
{
    match value {
        serde_json::Value::Null => Node::Null,
        serde_json::Value::Bool(b) => Node::Bool(b),
        serde_json::Value::Number(n) => Node::Number(n),
        serde_json::Value::String(s) => Node::Str(s),
        serde_json::Value::Array(items) => Node::Array(items),
        serde_json::Value::Object(members) => Node::Object(members.into_iter().collect()),
    }
}

/// The variants of `serde_json::Value`, and `serde_json::Map`'s `from_iter`. Taken on trust:
/// the value made of a layer holds that layer. It is said of objects in which no name stands
/// twice; which of two members of the same name is kept is left open.
#[verifier::external_body]
fn close_value(node: Node) -> (value: serde_json::Value)
    requires
        node matches Node::Object(members) ==> distinct_keys(members@),
    ensures
        value_view(value) == node_view(node),
{
    match node {
        Node::Null => serde_json::Value::Null,
        Node::Bool(b) => serde_json::Value::Bool(b),
        Node::Number(n) => serde_json::Value::Number(n),
        Node::Str(s) => serde_json::Value::String(s),
        Node::Array(items) => serde_json::Value::Array(items),
        Node::Object(members) => serde_json::Value::Object(members.into_iter().collect()),
    }
}

/// `serde_json::Map::insert`, on the map of an object. Taken on trust: the member is in the
/// object then, in the place of an earlier one of the same name, and the others stay.
#[verifier::external_body]
fn put_member(value: serde_json::Value, key: String, inner: serde_json::Value) -> (r:
    serde_json::Value)
    ensures
        value_view(value) matches JsonView::Object(map) ==> value_view(r) == JsonView::Object(
            map.insert(key@, value_view(inner)),
        ),
{
    match value {
        serde_json::Value::Object(mut members) => {
            members.insert(key, inner);
            serde_json::Value::Object(members)
        },
        other => other,
    }
}

/// `serde_json::Number::from` of an `i64`. Taken on trust: `as_i64` gives the integer back.
#[verifier::external_body]
fn integer_to_number(i: i64) -> (r: serde_json::Number)
    ensures
        number_i64(r) == Some(i),
{
    serde_json::Number::from(i)
}

fn from_value(value: serde_json::Value) -> (json: Json)
    ensures
        json@ == value_view(value),
    decreases value_view(value),
{
    let ghost model = value_view(value);
    match open_value(value) {
        Node::Null => Json::Null,
        Node::Bool(b) => Json::Bool(b),
        Node::Number(n) => match number_to_integer(&n) {
            Some(i) => Json::Int(i),
            None => Json::Num(n),
        },
        Node::Str(s) => Json::Str(s),
        Node::Array(items) => {
            let ghost views = item_views(items@);
            let mut out: Vec<Json> = Vec::new();
            for item in it: items
                invariant
                    model == value_view(value),
                    model == JsonView::Array(views),
                    views == item_views(it.seq()),
                    out@.len() == it.index(),
                    forall|k: int| 0 <= k < out@.len() ==> out@[k]@ == views[k],
            {
                proof {
                    let at = it.index() as int;
                    assert(views[at] == value_view(item));
                    assert(decreases_to!(model->Array_0 => model->Array_0[at]));
                    assert(decreases_to!(model => model->Array_0));
                }
                out.push(from_value(item));
            }
            assert(array_views(out@) =~= views);
            Json::Array(out)
        },
        Node::Object(members) => {
            let ghost views = member_views(members@);
            let mut out: Vec<(String, Json)> = Vec::new();
            for entry in it: members
                invariant
                    model == value_view(value),
                    model == object_of(views),
                    views == member_views(it.seq()),
                    distinct_keys(it.seq()),
                    out@.len() == it.index(),
                    forall|k: int| 0 <= k < out@.len() ==> (out@[k].0@, out@[k].1@) == views[k],
            {
                proof {
                    let at = it.index() as int;
                    assert(views[at] == (entry.0@, value_view(entry.1)));
                    lemma_entries_map_at(views, at);
                    lemma_entries_map_finite(views);
                    assert(decreases_to!(model->Object_0 => model->Object_0[views[at].0]));
                    assert(decreases_to!(model => model->Object_0));
                }
                let (key, inner) = entry;
                out.push((key, from_value(inner)));
            }
            assert(entry_views(out@) =~= views);
            Json::Object(out)
        },
    }
}

fn to_value(json: &Json) -> (value: serde_json::Value)
    ensures
        value_view(value) == json@,
    decreases json,
{
    match json {
        Json::Null => close_value(Node::Null),
        Json::Bool(b) => close_value(Node::Bool(*b)),
        Json::Int(i) => close_value(Node::Number(integer_to_number(*i))),
        Json::Num(n) => close_value(Node::Number(n.clone())),
        Json::Str(s) => close_value(Node::Str(s.clone())),
        Json::Array(items) => {
            let mut out: Vec<serde_json::Value> = Vec::new();
            let mut i: usize = 0;
            while i < items.len()
                invariant
                    *json == Json::Array(*items),
                    i <= items@.len(),
                    out@.len() == i,
                    forall|k: int| 0 <= k < i ==> value_view(out@[k]) == items@[k]@,
                decreases items@.len() - i,
            {
                assert(decreases_to!(json->Array_0 => json->Array_0@));
                assert(decreases_to!(json->Array_0@ => json->Array_0@[i as int]));
                out.push(to_value(&items[i]));
                i = i + 1;
            }
            assert(item_views(out@) =~= array_views(items@));
            close_value(Node::Array(out))
        },
        Json::Object(entries) => {
            let ghost views = entry_views(entries@);
            let mut out: serde_json::Value = close_value(Node::Object(Vec::new()));
            let mut i: usize = 0;
            assert(value_view(out) == object_of(views.take(0))) by {
                assert(member_views(Seq::empty()) =~= views.take(0));
            }
            while i < entries.len()
                invariant
                    *json == Json::Object(*entries),
                    views == entry_views(entries@),
                    i <= entries@.len(),
                    value_view(out) == object_of(views.take(i as int)),
                decreases entries@.len() - i,
            {
                let entry: &(String, Json) = &entries[i];
                assert(decreases_to!(json->Object_0 => json->Object_0@));
                assert(decreases_to!(json->Object_0@ => json->Object_0@[i as int]));
                assert(decreases_to!(json->Object_0@[i as int] => json->Object_0@[i as int].1));
                assert(views.take(i + 1).drop_last() =~= views.take(i as int));
                out = put_member(out, entry.0.clone(), to_value(&entry.1));
                i = i + 1;
            }
            assert(views.take(views.len() as int) =~= views);
            out
        },
    }
}

/// Reads a JSON text.
pub fn parse_json(raw: &[u8]) -> (r: Result<Json, String>)
    ensures
        match r {
            Ok(json) => json_parse(raw@) == Ok::<JsonView, Seq<char>>(json@),
            Err(e) => json_parse(raw@) == Err::<JsonView, Seq<char>>(e@),
        },
{
    match read_value(raw) {
        Ok(value) => Ok(from_value(value)),
        Err(e) => Err(e),
    }
}

/// Prints a document as compact JSON text on a single line, out of which a plain document can
/// be read back.
pub fn print_json(json: &Json) -> (r: String)
    ensures
        r@ == json_text(json@),
        has_no_breaks(r@),
        is_plain(json@, 127) ==> json_parse(encode_utf8(r@)) == Ok::<JsonView, Seq<char>>(json@),
{
    print_value(&to_value(json))
}

/// The padded base64 text, in the standard alphabet, of a byte string.
pub uninterp spec fn base64_text(bytes: Seq<u8>) -> Seq<char>;

/// The bytes that a padded base64 text in the standard alphabet stands for, or the text of
/// the decoder's error.
pub uninterp spec fn base64_bytes(text: Seq<char>) -> Result<Seq<u8>, Seq<char>>;

/// The characters of base64: the standard alphabet and the padding.
pub open spec fn is_base64_char(c: char) -> bool {
    'A' <= c <= 'Z' || 'a' <= c <= 'z' || '0' <= c <= '9' || c == '+' || c == '/' || c == '='
}

/// `STANDARD.encode`. Taken on trust: the text depends on the bytes alone, is made of the
/// standard alphabet and the padding, and `STANDARD.decode` gives the bytes back. (The length
/// of the text of a byte string that fits in memory fits in a `usize`.)
#[verifier::external_body]
pub(crate) fn encode_base64(bytes: &[u8]) -> (r: String)
    ensures
        r@ == base64_text(bytes@),
        (base64_bytes(r@) == Ok::<Seq<u8>, Seq<char>>(bytes@)),
        forall|i: int| 0 <= i < r@.len() ==> is_base64_char(#[trigger] r@[i]),
{
    base64::engine::general_purpose::STANDARD.encode(bytes)
}

/// `STANDARD.decode`. Taken on trust: what comes back, bytes or the text of the error, depends
/// on the text alone.
#[verifier::external_body]
pub(crate) fn decode_base64(text: &str) -> (r: Result<Vec<u8>, String>)
    ensures
        match r {
            Ok(bytes) => base64_bytes(text@) == Ok::<Seq<u8>, Seq<char>>(bytes@),
            Err(e) => base64_bytes(text@) == Err::<Seq<u8>, Seq<char>>(e@),
        },
{
    base64::engine::general_purpose::STANDARD.decode(text).map_err(|e| e.to_string())
}

/// The 32 bytes of the BLAKE3 digest of a byte string.
pub uninterp spec fn blake3_digest(bytes: Seq<u8>) -> Seq<u8>;

/// `blake3::hash`. Taken on trust: the digest depends on the bytes alone.
#[verifier::external_body]
pub(crate) fn digest(bytes: &[u8]) -> (r: [u8; 32])
    ensures
        r@ == blake3_digest(bytes@),
{
    *blake3::hash(bytes).as_bytes()
}

/// `std::str::from_utf8`. Taken on trust: it accepts exactly the valid UTF-8 byte strings, and
/// decodes them.
#[verifier::external_body]
pub(crate) fn utf8_text(bytes: &[u8]) -> (r: Option<&str>)
    ensures
        match r {
            Some(s) => valid_utf8(bytes@) && s@ == decode_utf8(bytes@),
            None => !valid_utf8(bytes@),
        },
{
    std::str::from_utf8(bytes).ok()
}

/// The text that a byte string is shown as: U+FFFD stands where it is not valid UTF-8.
pub uninterp spec fn utf8_lossy(bytes: Seq<u8>) -> Seq<char>;

/// `String::from_utf8_lossy`. Taken on trust: the text depends on the bytes alone, and of
/// valid UTF-8 it is the decoding.
#[verifier::external_body]
pub(crate) fn lossy_text(bytes: &[u8]) -> (r: String)
    ensures
        r@ == utf8_lossy(bytes@),
        valid_utf8(bytes@) ==> r@ == decode_utf8(bytes@),
{
    String::from_utf8_lossy(bytes).into_owned()
}

} // verus!
