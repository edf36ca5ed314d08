//! A reader of JSON text, and what is needed to show that it takes a text for a document. It
//! reads the part of JSON that the envelopes are written in: objects, arrays, strings and the
//! truth values, with no white space between them. Whatever it reads is JSON text.
use vstd::prelude::*;

use crate::envelope::{escape_char, escaped};
use crate::json::{object_of, JsonView};
use crate::text::{has_prefix, is_control};

verus! {

/// A character as it comes out at the other end: a control character that has no escape of its
/// own has become a blank.
pub open spec fn shown_char(c: char) -> char {
    if is_control(c) && c != '\n' && c != '\r' && c != '\t' {
        ' '
    } else {
        c
    }
}

/// A text as it comes out at the other end.
pub open spec fn shown(s: Seq<char>) -> Seq<char> {
    s.map_values(|c: char| shown_char(c))
}

/// Whether a text has no control characters but line feeds, carriage returns and tabs.
pub open spec fn is_clean(s: Seq<char>) -> bool {
    forall|i: int| 0 <= i < s.len() ==> shown_char(#[trigger] s[i]) == s[i]
}

/// A clean text comes out as it went in.
pub proof fn lemma_clean_shown(s: Seq<char>)
    requires
        is_clean(s),
    ensures
        shown(s) == s,
{
    assert(shown(s) =~= s);
}

/// What a character behind a backslash stands for.
pub open spec fn escape_value(c: char) -> Option<char> {
    if c == '"' || c == '\\' {
        Some(c)
    } else if c == 'n' {
        Some('\n')
    } else if c == 'r' {
        Some('\r')
    } else if c == 't' {
        Some('\t')
    } else {
        None
    }
}

/// Reads a string, from behind its first quote: its characters, and what stands behind its last
/// quote.
pub open spec fn read_string(s: Seq<char>) -> Option<(Seq<char>, Seq<char>)>
    decreases s.len(),
{
    if s.len() == 0 {
        None
    } else if s[0] == '"' {
        Some((Seq::empty(), s.skip(1)))
    } else if s[0] == '\\' {
        if s.len() < 2 {
            None
        } else {
            match (escape_value(s[1]), read_string(s.skip(2))) {
                (Some(c), Some((text, rest))) => Some((seq![c] + text, rest)),
                _ => None,
            }
        }
    } else if is_control(s[0]) {
        None
    } else {
        match read_string(s.skip(1)) {
            Some((text, rest)) => Some((seq![s[0]] + text, rest)),
            None => None,
        }
    }
}

/// Reads a value in which no more than `levels` arrays and objects stand inside one another: the
/// document, and what stands behind it.
pub open spec fn read_value(s: Seq<char>, levels: nat) -> Option<(JsonView, Seq<char>)>
    decreases levels, 0nat, s.len(),
{
    if has_prefix(s, "true"@) {
        Some((JsonView::Bool(true), s.skip(4)))
    } else if has_prefix(s, "false"@) {
        Some((JsonView::Bool(false), s.skip(5)))
    } else if s.len() > 0 && s[0] == '"' {
        match read_string(s.skip(1)) {
            Some((text, rest)) => Some((JsonView::Str(text), rest)),
            None => None,
        }
    } else if s.len() > 1 && s[0] == '{' && levels > 0 {
        if s[1] == '}' {
            Some((object_of(Seq::empty()), s.skip(2)))
        } else {
            match read_members(s.skip(1), (levels - 1) as nat) {
                Some((members, rest)) => Some((object_of(members), rest)),
                None => None,
            }
        }
    } else if s.len() > 1 && s[0] == '[' && levels > 0 {
        if s[1] == ']' {
            Some((JsonView::Array(Seq::empty()), s.skip(2)))
        } else {
            match read_items(s.skip(1), (levels - 1) as nat) {
                Some((items, rest)) => Some((JsonView::Array(items), rest)),
                None => None,
            }
        }
    } else {
        None
    }
}

/// Reads the members of an object, up to its closing brace.
pub open spec fn read_members(s: Seq<char>, levels: nat) -> Option<
    (Seq<(Seq<char>, JsonView)>, Seq<char>),
>
    decreases levels, 1nat, s.len(),
{
    if s.len() == 0 || s[0] != '"' {
        None
    } else {
        match read_string(s.skip(1)) {
            Some((key, colon)) => if colon.len() > 0 && colon[0] == ':' {
                match read_value(colon.skip(1), levels) {
                    Some((value, rest)) => if rest.len() > 0 && rest[0] == '}' {
                        Some((seq![(key, value)], rest.skip(1)))
                    } else if 0 < rest.len() < s.len() && rest[0] == ',' {
                        match read_members(rest.skip(1), levels) {
                            Some((more, end)) => Some((seq![(key, value)] + more, end)),
                            None => None,
                        }
                    } else {
                        None
                    },
                    None => None,
                }
            } else {
                None
            },
            None => None,
        }
    }
}

/// Reads the items of an array, up to its closing bracket.
pub open spec fn read_items(s: Seq<char>, levels: nat) -> Option<(Seq<JsonView>, Seq<char>)>
    decreases levels, 1nat, s.len(),
{
    match read_value(s, levels) {
        Some((value, rest)) => if rest.len() > 0 && rest[0] == ']' {
            Some((seq![value], rest.skip(1)))
        } else if 0 < rest.len() < s.len() && rest[0] == ',' {
            match read_items(rest.skip(1), levels) {
                Some((more, end)) => Some((seq![value] + more, end)),
                None => None,
            }
        } else {
            None
        },
        None => None,
    }
}

/// The document that a whole text is, read as deep as the deepest that serde_json reads.
pub open spec fn read_document(s: Seq<char>) -> Option<JsonView> {
    match read_value(s, 127) {
        Some((json, rest)) => if rest.len() == 0 {
            Some(json)
        } else {
            None
        },
        None => None,
    }
}

/// Whether a text, whatever stands behind it, is read as a document of any number of levels
/// from `levels` on.
pub open spec fn reads_as(text: Seq<char>, json: JsonView, levels: nat) -> bool {
    &&& text.len() > 0
    &&& forall|tail: Seq<char>, n: nat| levels <= n ==> #[trigger] read_value(text + tail, n)
        == Some((json, tail))
}

/// A string, escaped, between its quotes.
pub open spec fn string_text(s: Seq<char>) -> Seq<char> {
    seq!['"'] + escaped(s) + seq!['"']
}

/// An escaped string is read back up to its quote.
pub proof fn lemma_read_string(s: Seq<char>, tail: Seq<char>)
    ensures
        read_string(escaped(s) + seq!['"'] + tail) == Some((shown(s), tail)),
    decreases s.len(),
{
    let text = escaped(s) + seq!['"'] + tail;
    if s.len() == 0 {
        assert(text.skip(1) =~= tail);
        assert(shown(s) =~= Seq::empty());
    } else {
        let head = escape_char(s[0]);
        let rest = escaped(s.drop_first()) + seq!['"'] + tail;
        lemma_read_string(s.drop_first(), tail);
        assert(text =~= head + rest);
        assert(text.skip(head.len() as int) =~= rest);
        assert(text[0] == head[0]);
        if head.len() == 2 {
            assert(text[1] == head[1]);
        }
        assert(seq![shown_char(s[0])] + shown(s.drop_first()) =~= shown(s));
    }
}

/// A string is read as its text.
pub proof fn lemma_string_reads(s: Seq<char>)
    ensures
        reads_as(string_text(s), JsonView::Str(shown(s)), 0),
{
    reveal_strlit("true");
    reveal_strlit("false");
    assert forall|tail: Seq<char>, n: nat| 0 <= n implies #[trigger] read_value(
        string_text(s) + tail,
        n,
    ) == Some((JsonView::Str(shown(s)), tail)) by {
        let text = string_text(s) + tail;
        assert(text[0] == '"');
        assert(text.take(4)[0] == '"' || text.len() < 4);
        assert(text.take(5)[0] == '"' || text.len() < 5);
        assert("true"@[0] == 't' && "false"@[0] == 'f');
        assert(text.skip(1) =~= escaped(s) + seq!['"'] + tail);
        lemma_read_string(s, tail);
    }
}

/// The truth values are read as such.
pub proof fn lemma_bool_reads()
    ensures
        reads_as("true"@, JsonView::Bool(true), 0),
        reads_as("false"@, JsonView::Bool(false), 0),
{
    reveal_strlit("true");
    reveal_strlit("false");
    assert forall|tail: Seq<char>, n: nat| 0 <= n implies #[trigger] read_value("true"@ + tail, n)
        == Some((JsonView::Bool(true), tail)) by {
        assert(("true"@ + tail).take(4) =~= "true"@);
        assert(("true"@ + tail).skip(4) =~= tail);
    }
    assert forall|tail: Seq<char>, n: nat| 0 <= n implies #[trigger] read_value("false"@ + tail, n)
        == Some((JsonView::Bool(false), tail)) by {
        let text = "false"@ + tail;
        assert(text.take(5) =~= "false"@);
        assert(text.skip(5) =~= tail);
        assert(text.take(4)[0] == 'f');
        assert("true"@[0] == 't');
    }
}

/// The text of an object with one member, whose value is written `value`.
pub open spec fn one_member_text(key: Seq<char>, value: Seq<char>) -> Seq<char> {
    seq!['{'] + string_text(key) + seq![':'] + value + seq!['}']
}

/// The text of an object with two members.
pub open spec fn two_member_text(
    key: Seq<char>,
    value: Seq<char>,
    other_key: Seq<char>,
    other_value: Seq<char>,
) -> Seq<char> {
    seq!['{'] + string_text(key) + seq![':'] + value + seq![','] + string_text(other_key)
        + seq![':'] + other_value + seq!['}']
}

/// The text of an array with one item.
pub open spec fn one_item_text(item: Seq<char>) -> Seq<char> {
    seq!['['] + item + seq![']']
}

/// A text that begins with a bracket or a brace is no truth value.
proof fn lemma_no_bool(s: Seq<char>)
    requires
        s.len() > 0,
        s[0] != 't',
        s[0] != 'f',
    ensures
        !has_prefix(s, "true"@),
        !has_prefix(s, "false"@),
{
    reveal_strlit("true");
    reveal_strlit("false");
    assert("true"@.len() == 4 && "true"@[0] == 't');
    assert("false"@.len() == 5 && "false"@[0] == 'f');
    if s.len() >= 4 {
        assert(s.take(4)[0] == s[0]);
    }
    if s.len() >= 5 {
        assert(s.take(5)[0] == s[0]);
    }
}

/// The last member of an object is read.
proof fn lemma_last_member(
    key: Seq<char>,
    value: Seq<char>,
    json: JsonView,
    levels: nat,
    tail: Seq<char>,
)
    requires
        is_clean(key),
        reads_as(value, json, levels),
    ensures
        read_members(string_text(key) + seq![':'] + value + seq!['}'] + tail, levels) == Some(
            (seq![(key, json)], tail),
        ),
{
    let text = string_text(key) + seq![':'] + value + seq!['}'] + tail;
    let colon = seq![':'] + value + seq!['}'] + tail;
    let close = seq!['}'] + tail;
    lemma_clean_shown(key);
    assert(text[0] == '"');
    assert(text.skip(1) =~= escaped(key) + seq!['"'] + colon);
    lemma_read_string(key, colon);
    assert(colon.skip(1) =~= value + close);
    assert(read_value(value + close, levels) == Some((json, close)));
    assert(close.skip(1) =~= tail);
}

/// A member with others behind it is read.
proof fn lemma_first_member(
    key: Seq<char>,
    value: Seq<char>,
    json: JsonView,
    levels: nat,
    others: Seq<char>,
    members: Seq<(Seq<char>, JsonView)>,
    end: Seq<char>,
)
    requires
        is_clean(key),
        reads_as(value, json, levels),
        read_members(others, levels) == Some((members, end)),
    ensures
        read_members(string_text(key) + seq![':'] + value + seq![','] + others, levels) == Some(
            (seq![(key, json)] + members, end),
        ),
{
    let text = string_text(key) + seq![':'] + value + seq![','] + others;
    let colon = seq![':'] + value + seq![','] + others;
    let comma = seq![','] + others;
    lemma_clean_shown(key);
    assert(text[0] == '"');
    assert(text.skip(1) =~= escaped(key) + seq!['"'] + colon);
    lemma_read_string(key, colon);
    assert(colon.skip(1) =~= value + comma);
    assert(read_value(value + comma, levels) == Some((json, comma)));
    assert(comma.skip(1) =~= others);
}

/// An object with one member is read as such.
pub proof fn lemma_one_member_reads(key: Seq<char>, value: Seq<char>, json: JsonView, levels: nat)
    requires
        is_clean(key),
        reads_as(value, json, levels),
    ensures
        reads_as(one_member_text(key, value), object_of(seq![(key, json)]), levels + 1),
{
    let object = one_member_text(key, value);
    assert forall|tail: Seq<char>, n: nat| levels + 1 <= n implies #[trigger] read_value(
        object + tail,
        n,
    ) == Some((object_of(seq![(key, json)]), tail)) by {
        let text = object + tail;
        lemma_no_bool(text);
        assert(text[1] == '"');
        assert(text.skip(1) =~= string_text(key) + seq![':'] + value + seq!['}'] + tail);
        assert(reads_as(value, json, (n - 1) as nat));
        lemma_last_member(key, value, json, (n - 1) as nat, tail);
    }
}

/// An object with two members is read as such.
pub proof fn lemma_two_members_read(
    key: Seq<char>,
    value: Seq<char>,
    json: JsonView,
    other_key: Seq<char>,
    other_value: Seq<char>,
    other_json: JsonView,
    levels: nat,
)
    requires
        is_clean(key),
        reads_as(value, json, levels),
        is_clean(other_key),
        reads_as(other_value, other_json, levels),
    ensures
        reads_as(
            two_member_text(key, value, other_key, other_value),
            object_of(seq![(key, json), (other_key, other_json)]),
            levels + 1,
        ),
{
    let object = two_member_text(key, value, other_key, other_value);
    let members = seq![(key, json), (other_key, other_json)];
    assert forall|tail: Seq<char>, n: nat| levels + 1 <= n implies #[trigger] read_value(
        object + tail,
        n,
    ) == Some((object_of(members), tail)) by {
        let text = object + tail;
        let others = string_text(other_key) + seq![':'] + other_value + seq!['}'] + tail;
        let inner: nat = (n - 1) as nat;
        lemma_no_bool(text);
        assert(text[1] == '"');
        assert(text.skip(1) =~= string_text(key) + seq![':'] + value + seq![','] + others);
        assert(reads_as(value, json, inner));
        assert(reads_as(other_value, other_json, inner));
        lemma_last_member(other_key, other_value, other_json, inner, tail);
        lemma_first_member(
            key,
            value,
            json,
            inner,
            others,
            seq![(other_key, other_json)],
            tail,
        );
        assert(seq![(key, json)] + seq![(other_key, other_json)] =~= members);
    }
}

/// An array with one item is read as such.
pub proof fn lemma_one_item_reads(item: Seq<char>, json: JsonView, levels: nat)
    requires
        item.len() > 0,
        item[0] != ']',
        reads_as(item, json, levels),
    ensures
        reads_as(one_item_text(item), JsonView::Array(seq![json]), levels + 1),
{
    let array = one_item_text(item);
    assert forall|tail: Seq<char>, n: nat| levels + 1 <= n implies #[trigger] read_value(
        array + tail,
        n,
    ) == Some((JsonView::Array(seq![json]), tail)) by {
        let text = array + tail;
        let close = seq![']'] + tail;
        let inner: nat = (n - 1) as nat;
        lemma_no_bool(text);
        assert(text[1] == item[0]);
        assert(text.skip(1) =~= item + close);
        assert(read_value(item + close, inner) == Some((json, close)));
        assert(close.skip(1) =~= tail);
    }
}

/// A text that is read as a document is that document.
pub proof fn lemma_whole_text(text: Seq<char>, json: JsonView, levels: nat)
    requires
        reads_as(text, json, levels),
        levels <= 127,
    ensures
        read_document(text) == Some(json),
{
    assert(text + Seq::empty() =~= text);
    assert(read_value(text + Seq::empty(), 127) == Some((json, Seq::<char>::empty())));
}

} // verus!
