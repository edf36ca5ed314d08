//! Laws of what is read out of messages and interactions.
use vstd::prelude::*;

use crate::answer::reply_message;
use crate::codec::json_text;
use crate::content::{
    arguments_text, message_text, part_texts, spaced, step_text, steps_of, steps_text, texts_in,
    tool_call, tool_calls,
};
use crate::json::{
    entries_map, lemma_entries_map_absent, lemma_entries_map_at, object_of, or_empty, JsonView,
};
use crate::session::{assistant_message, history_lines};

verus! {

/// The texts of two lists of parts, one behind the other, are those of the one and of the
/// other.
pub proof fn law_texts_concat(a: Seq<JsonView>, b: Seq<JsonView>)
    ensures
        texts_in(a + b) == texts_in(a) + texts_in(b),
    decreases b.len(),
{
    if b.len() == 0 {
        assert(a + b =~= a);
        assert(texts_in(a) + texts_in(b) =~= texts_in(a));
    } else {
        assert((a + b).drop_last() =~= a + b.drop_last());
        law_texts_concat(a, b.drop_last());
        assert(texts_in(a + b) =~= texts_in(a) + texts_in(b));
    }
}

/// Texts are joined by a space: between two lists of texts, neither of them empty, stands one
/// space.
pub proof fn law_texts_joined_by_space(a: Seq<Seq<char>>, b: Seq<Seq<char>>)
    requires
        a.len() > 0,
        b.len() > 0,
    ensures
        spaced(a + b) == spaced(a) + " "@ + spaced(b),
    decreases b.len(),
{
    assert((a + b).drop_last() =~= a + b.drop_last());
    if b.len() == 1 {
        assert(a + b.drop_last() =~= a);
    } else {
        law_texts_joined_by_space(a, b.drop_last());
    }
    assert(spaced(a + b) =~= spaced(a) + " "@ + spaced(b));
}

/// A part of any other type than `text` is dropped and leaves no space: an image among the
/// parts of a message does not change the text of the message.
pub proof fn law_other_parts_dropped(before: Seq<JsonView>, part: JsonView, behind: Seq<JsonView>)
    requires
        part.str_at("type"@) != Some("text"@),
    ensures
        texts_in(before + seq![part] + behind) == texts_in(before + behind),
        spaced(texts_in(before + seq![part] + behind)) == spaced(texts_in(before + behind)),
{
    law_texts_concat(before + seq![part], behind);
    law_texts_concat(before, behind);
    assert((before + seq![part]).drop_last() =~= before);
}

/// The text of two lists of steps, one behind the other, is that of the one and of the other;
/// so are their tool calls.
pub proof fn law_steps_concat(a: Seq<JsonView>, b: Seq<JsonView>)
    ensures
        steps_text(a + b) == steps_text(a) + steps_text(b),
        tool_calls(a + b) == tool_calls(a) + tool_calls(b),
    decreases b.len(),
{
    if b.len() == 0 {
        assert(a + b =~= a);
        assert(steps_text(a) + steps_text(b) =~= steps_text(a));
        assert(tool_calls(a) + tool_calls(b) =~= tool_calls(a));
    } else {
        assert((a + b).drop_last() =~= a + b.drop_last());
        law_steps_concat(a, b.drop_last());
        assert(steps_text(a + b) =~= steps_text(a) + steps_text(b));
        assert(tool_calls(a + b) =~= tool_calls(a) + tool_calls(b));
    }
}

/// A step that is neither model output nor a thought nor a function call leaves no trace in
/// the answer.
pub proof fn law_other_steps_ignored(before: Seq<JsonView>, step: JsonView, behind: Seq<JsonView>)
    requires
        step.str_at("type"@) != Some("model_output"@),
        step.str_at("type"@) != Some("thought"@),
        step.str_at("type"@) != Some("function_call"@),
    ensures
        steps_text(before + seq![step] + behind) == steps_text(before + behind),
        tool_calls(before + seq![step] + behind) == tool_calls(before + behind),
{
    law_steps_concat(before + seq![step], behind);
    law_steps_concat(before, behind);
    assert((before + seq![step]).drop_last() =~= before);
    assert(steps_text(before + seq![step]) =~= steps_text(before));
}

/// Every function call becomes a tool call, in its place among the others.
pub proof fn law_function_call_folded(before: Seq<JsonView>, step: JsonView, behind: Seq<JsonView>)
    requires
        step.str_at("type"@) == Some("function_call"@),
    ensures
        tool_calls(before + seq![step] + behind) == tool_calls(before) + seq![tool_call(step)]
            + tool_calls(behind),
{
    law_steps_concat(before + seq![step], behind);
    assert((before + seq![step]).drop_last() =~= before);
    assert(tool_calls(before + seq![step]) =~= tool_calls(before) + seq![tool_call(step)]);
}

/// The members of two lists, one behind the other: the second list has the last word.
proof fn lemma_entries_map_concat(
    a: Seq<(Seq<char>, JsonView)>,
    b: Seq<(Seq<char>, JsonView)>,
)
    ensures
        entries_map(a + b) == entries_map(a).union_prefer_right(entries_map(b)),
    decreases b.len(),
{
    if b.len() == 0 {
        assert(a + b =~= a);
        assert(entries_map(a).union_prefer_right(entries_map(b)) =~= entries_map(a));
    } else {
        assert((a + b).drop_last() =~= a + b.drop_last());
        lemma_entries_map_concat(a, b.drop_last());
        assert(entries_map(a + b) =~= entries_map(a).union_prefer_right(entries_map(b)));
    }
}

/// The order of members with different names does not matter: the document, and with it the
/// text and the session key made of it, stays the same.
pub proof fn law_member_order_irrelevant(
    before: Seq<(Seq<char>, JsonView)>,
    x: (Seq<char>, JsonView),
    y: (Seq<char>, JsonView),
    behind: Seq<(Seq<char>, JsonView)>,
)
    requires
        x.0 != y.0,
    ensures
        object_of(before + seq![x, y] + behind) == object_of(before + seq![y, x] + behind),
{
    lemma_entries_map_concat(before + seq![x, y], behind);
    lemma_entries_map_concat(before + seq![y, x], behind);
    let xy = before + seq![x, y];
    let yx = before + seq![y, x];
    assert(xy.drop_last().drop_last() =~= before);
    assert(yx.drop_last().drop_last() =~= before);
    assert(xy.drop_last().last() == x);
    assert(yx.drop_last().last() == y);
    reveal_with_fuel(entries_map, 3);
    assert(entries_map(xy) =~= entries_map(yx));
}

/// What two stretches of history put in a session key stands one behind the other.
pub proof fn law_history_concat(a: Seq<JsonView>, b: Seq<JsonView>)
    ensures
        history_lines(a + b) == history_lines(a) + history_lines(b),
    decreases b.len(),
{
    if b.len() == 0 {
        assert(a + b =~= a);
        assert(history_lines(a) + history_lines(b) =~= history_lines(a));
    } else {
        assert((a + b).drop_last() =~= a + b.drop_last());
        law_history_concat(a, b.drop_last());
        assert(history_lines(a + b) =~= history_lines(a) + history_lines(b));
    }
}

/// A message without a role is no part of the history that a session is found by.
pub proof fn law_message_without_role_ignored(
    before: Seq<JsonView>,
    message: JsonView,
    behind: Seq<JsonView>,
)
    requires
        message.str_at("role"@) is None,
    ensures
        history_lines(before + seq![message] + behind) == history_lines(before + behind),
{
    law_history_concat(before + seq![message], behind);
    law_history_concat(before, behind);
    assert((before + seq![message]).drop_last() =~= before);
    assert(history_lines(before + seq![message]) =~= history_lines(before));
}

/// The text of a message whose content is a string is that string, whatever it holds.
pub proof fn law_string_content_whole(message: JsonView, text: Seq<char>)
    requires
        message.get("content"@) == Some(JsonView::Str(text)),
    ensures
        message_text(message) == text,
{
}

/// The text of a message whose content is a list of parts is made of the texts of its parts;
/// that of any other message is empty.
pub proof fn law_parts_content(message: JsonView, parts: Seq<JsonView>)
    ensures
        message.get("content"@) == Some(JsonView::Array(parts)) ==> message_text(message)
            == spaced(texts_in(parts)),
        !(message.get("content"@) matches Some(JsonView::Str(_))) && !(message.get(
            "content"@,
        ) matches Some(JsonView::Array(_))) ==> message_text(message).len() == 0,
{
}

/// The only part of a list gives its text, whole, if it is a `text` part that has one, and
/// nothing otherwise; no parts give nothing.
pub proof fn law_single_part(part: JsonView, text: Seq<char>)
    ensures
        part.str_at("type"@) == Some("text"@) && part.str_at("text"@) == Some(text) ==> texts_in(
            seq![part],
        ) == seq![text],
        part.str_at("type"@) != Some("text"@) || part.str_at("text"@) is None ==> texts_in(
            seq![part],
        ).len() == 0,
        texts_in(Seq::empty()).len() == 0,
        spaced(seq![text]) == text,
        spaced(Seq::empty()).len() == 0,
{
    assert(seq![part].drop_last() =~= Seq::empty());
    assert(texts_in(seq![part].drop_last()) =~= Seq::empty());
}

/// A message of one text part says what a message with that text as its content says.
pub proof fn law_one_part_like_string(a: JsonView, b: JsonView, part: JsonView, text: Seq<char>)
    requires
        a.get("content"@) == Some(JsonView::Str(text)),
        b.get("content"@) == Some(JsonView::Array(seq![part])),
        part.str_at("type"@) == Some("text"@),
        part.str_at("text"@) == Some(text),
    ensures
        message_text(a) == message_text(b),
        message_text(b) == text,
{
    law_single_part(part, text);
}

/// The texts of the parts of a step stand one behind the other, with nothing between them.
pub proof fn law_part_texts_concat(a: Seq<JsonView>, b: Seq<JsonView>)
    ensures
        part_texts(a + b) == part_texts(a) + part_texts(b),
    decreases b.len(),
{
    if b.len() == 0 {
        assert(a + b =~= a);
        assert(part_texts(a) + part_texts(b) =~= part_texts(a));
    } else {
        assert((a + b).drop_last() =~= a + b.drop_last());
        law_part_texts_concat(a, b.drop_last());
        assert(part_texts(a + b) =~= part_texts(a) + part_texts(b));
    }
}

/// The only part of a step gives its text, whole, whatever its type; without a text it gives
/// nothing, and so do no parts.
pub proof fn law_single_step_part(part: JsonView, text: Seq<char>)
    ensures
        part.str_at("text"@) == Some(text) ==> part_texts(seq![part]) == text,
        part.str_at("text"@) is None ==> part_texts(seq![part]).len() == 0,
        part_texts(Seq::empty()).len() == 0,
{
    assert(seq![part].drop_last() =~= Seq::empty());
    assert(part_texts(seq![part].drop_last()) =~= Seq::empty());
    assert(Seq::empty() + text =~= text);
}

/// The text of an interaction of a single step is that of the parts of its output, or of its
/// summary if it is a thought; a step of any other type, or without parts, says nothing, and so
/// does an interaction without steps.
pub proof fn law_single_step_text(interaction: JsonView, step: JsonView, parts: Seq<JsonView>)
    requires
        interaction.get("steps"@) == Some(JsonView::Array(seq![step])),
    ensures
        step.str_at("type"@) == Some("model_output"@) && step.array_at("content"@) == Some(parts)
            ==> steps_text(steps_of(interaction)) == part_texts(parts),
        step.str_at("type"@) == Some("thought"@) && step.array_at("summary"@) == Some(parts)
            ==> steps_text(steps_of(interaction)) == part_texts(parts),
        step.str_at("type"@) == Some("model_output"@) && step.array_at("content"@) is None
            ==> steps_text(steps_of(interaction)).len() == 0,
        step.str_at("type"@) == Some("thought"@) && step.array_at("summary"@) is None
            ==> steps_text(steps_of(interaction)).len() == 0,
        step.str_at("type"@) != Some("model_output"@) && step.str_at("type"@) != Some("thought"@)
            ==> steps_text(steps_of(interaction)).len() == 0,
{
    reveal_strlit("model_output");
    reveal_strlit("thought");
    assert("model_output"@.len() == 12);
    assert("thought"@.len() == 7);
    assert(steps_of(interaction) == seq![step]);
    assert(seq![step].drop_last() =~= Seq::empty());
    assert(steps_text(seq![step].drop_last()) =~= Seq::empty());
    assert(steps_text(seq![step]) =~= step_text(step));
}

/// The steps of an interaction are those under `steps`; an interaction without them has none,
/// says nothing and calls nothing.
pub proof fn law_steps_of_interaction(interaction: JsonView, steps: Seq<JsonView>)
    ensures
        interaction.array_at("steps"@) == Some(steps) ==> steps_of(interaction) == steps,
        interaction.array_at("steps"@) is None ==> steps_of(interaction).len() == 0,
        steps_text(Seq::empty()).len() == 0,
        tool_calls(Seq::empty()).len() == 0,
{
}

/// The text of a model that answers in one part is that part, line breaks and all: it is what
/// the client gets.
pub proof fn law_answer_text_whole(
    interaction: JsonView,
    step: JsonView,
    part: JsonView,
    text: Seq<char>,
)
    requires
        interaction.get("steps"@) == Some(JsonView::Array(seq![step])),
        step.str_at("type"@) == Some("model_output"@),
        step.array_at("content"@) == Some(seq![part]),
        part.str_at("text"@) == Some(text),
    ensures
        steps_text(steps_of(interaction)) == text,
        reply_message(interaction).str_at("content"@) == Some(text),
{
    law_single_step_text(interaction, step, seq![part]);
    law_single_step_part(part, text);
    law_reply_members(interaction, "content"@);
    lemma_message_keys();
}

/// The literals that name the members of messages and tool calls differ from each other.
proof fn lemma_message_keys()
    ensures
        "role"@ != "content"@,
        "role"@ != "tool_calls"@,
        "content"@ != "tool_calls"@,
        "id"@ != "type"@,
        "id"@ != "function"@,
        "type"@ != "function"@,
        "name"@ != "arguments"@,
{
    reveal_strlit("role");
    reveal_strlit("content");
    reveal_strlit("tool_calls");
    reveal_strlit("id");
    reveal_strlit("type");
    reveal_strlit("function");
    reveal_strlit("name");
    reveal_strlit("arguments");
    assert("role"@.len() == 4);
    assert("content"@.len() == 7);
    assert("tool_calls"@.len() == 10);
    assert("id"@.len() == 2);
    assert("type"@.len() == 4);
    assert("function"@.len() == 8);
    assert("name"@.len() == 4);
    assert("arguments"@.len() == 9);
}

/// A message of the assistant holds the whole text and, if there are any, all the tool calls,
/// and nothing else.
pub proof fn law_assistant_message_members(text: Seq<char>, calls: Seq<JsonView>, key: Seq<char>)
    ensures
        assistant_message(text, calls).get(key) == if key == "role"@ {
            Some(JsonView::Str("assistant"@))
        } else if key == "content"@ {
            Some(JsonView::Str(text))
        } else if key == "tool_calls"@ && calls.len() > 0 {
            Some(JsonView::Array(calls))
        } else {
            None
        },
{
    lemma_message_keys();
    let head = seq![
        ("role"@, JsonView::Str("assistant"@)),
        ("content"@, JsonView::Str(text)),
    ];
    let tail = if calls.len() == 0 {
        Seq::empty()
    } else {
        seq![("tool_calls"@, JsonView::Array(calls))]
    };
    let all = head + tail;
    assert(all[0] == head[0] && all[1] == head[1]);
    lemma_entries_map_at(all, 0);
    lemma_entries_map_at(all, 1);
    if calls.len() > 0 {
        assert(all[2] == tail[0]);
        lemma_entries_map_at(all, 2);
    }
    if key != "role"@ && key != "content"@ && (key != "tool_calls"@ || calls.len() == 0) {
        lemma_entries_map_absent(all, key);
    }
}

/// A reply is the assistant's, holds the whole text of the steps and, if there are any, all the
/// tool calls, and nothing else.
pub proof fn law_reply_members(interaction: JsonView, key: Seq<char>)
    ensures
        ({
            let steps = steps_of(interaction);
            reply_message(interaction).get(key) == if key == "role"@ {
                Some(JsonView::Str("assistant"@))
            } else if key == "content"@ {
                Some(JsonView::Str(steps_text(steps)))
            } else if key == "tool_calls"@ && tool_calls(steps).len() > 0 {
                Some(JsonView::Array(tool_calls(steps)))
            } else {
                None
            }
        }),
{
    let steps = steps_of(interaction);
    law_assistant_message_members(steps_text(steps), tool_calls(steps), key);
}

/// A tool call has the id, the name and the arguments of its function call: a text as it is,
/// anything else as its JSON text, an empty object where there are none. It has nothing else.
pub proof fn law_tool_call_members(step: JsonView, key: Seq<char>, text: Seq<char>)
    ensures
        tool_call(step).str_at("id"@) == Some(or_empty(step.str_at("id"@))),
        tool_call(step).str_at("type"@) == Some("function"@),
        tool_call(step).get("function"@) matches Some(function) && {
            &&& function.str_at("name"@) == Some(or_empty(step.str_at("name"@)))
            &&& step.get("arguments"@) == Some(JsonView::Str(text)) ==> function.str_at(
                "arguments"@,
            ) == Some(text)
            &&& step.get("arguments"@) is None ==> function.str_at("arguments"@) == Some("{}"@)
            &&& step.get("arguments"@) is Some && step.str_at("arguments"@) is None
                ==> function.str_at("arguments"@) == Some(json_text(step.get("arguments"@)->0))
            &&& key != "name"@ && key != "arguments"@ ==> function.get(key) is None
        },
        key != "id"@ && key != "type"@ && key != "function"@ ==> tool_call(step).get(key) is None,
{
    lemma_message_keys();
    let inner = seq![
        ("name"@, JsonView::Str(or_empty(step.str_at("name"@)))),
        ("arguments"@, JsonView::Str(arguments_text(step))),
    ];
    let outer = seq![
        ("id"@, JsonView::Str(or_empty(step.str_at("id"@)))),
        ("type"@, JsonView::Str("function"@)),
        ("function"@, object_of(inner)),
    ];
    lemma_entries_map_at(inner, 0);
    lemma_entries_map_at(inner, 1);
    lemma_entries_map_at(outer, 0);
    lemma_entries_map_at(outer, 1);
    lemma_entries_map_at(outer, 2);
    if key != "name"@ && key != "arguments"@ {
        lemma_entries_map_absent(inner, key);
    }
    if key != "id"@ && key != "type"@ && key != "function"@ {
        lemma_entries_map_absent(outer, key);
    }
}

} // verus!
