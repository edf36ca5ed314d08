//! What is read out of messages and interactions: text and function calls.
use vstd::prelude::*;
use vstd::string::*;

use crate::codec::{json_text, print_json};
use crate::json::{
    array_views, entry_views, member, object_of, opt_text, or_empty, text_json, Json, JsonView,
};
use crate::session::or_none;
use crate::text::same_text;

verus! {

/// Whether the `type` of a part or step is `kind`.
pub open spec fn has_type(json: JsonView, kind: Seq<char>) -> bool {
    json.str_at("type"@) == Some(kind)
}

fn of_type(json: &Json, kind: &str) -> (r: bool)
    ensures
        r == has_type(json@, kind@),
{
    match json.str_at("type") {
        Some(t) => same_text(t, kind),
        None => false,
    }
}

/// The text of a part of a message; `None` of a part of any other type than `text`, or without
/// a text.
pub open spec fn part_text(part: JsonView) -> Option<Seq<char>> {
    if has_type(part, "text"@) {
        part.str_at("text"@)
    } else {
        None
    }
}

/// The texts of the parts of a message, in their order. Parts without one are dropped.
pub open spec fn texts_in(parts: Seq<JsonView>) -> Seq<Seq<char>>
    decreases parts.len(),
{
    if parts.len() == 0 {
        Seq::empty()
    } else {
        let rest = texts_in(parts.drop_last());
        match part_text(parts.last()) {
            Some(text) => rest.push(text),
            None => rest,
        }
    }
}

/// Texts with one space between each and the next.
pub open spec fn spaced(texts: Seq<Seq<char>>) -> Seq<char>
    decreases texts.len(),
{
    if texts.len() == 0 {
        Seq::empty()
    } else if texts.len() == 1 {
        texts[0]
    } else {
        spaced(texts.drop_last()) + " "@ + texts.last()
    }
}

/// The text of a message: its content, or the texts of the parts of its content with a space
/// between them.
pub open spec fn message_text(message: JsonView) -> Seq<char> {
    match message.get("content"@) {
        Some(JsonView::Str(s)) => s,
        Some(JsonView::Array(parts)) => spaced(texts_in(parts)),
        _ => Seq::empty(),
    }
}

fn text_of_part(part: &Json) -> (r: Option<&str>)
    ensures
        opt_text(r) == part_text(part@),
{
    if of_type(part, "text") {
        part.str_at("text")
    } else {
        None
    }
}

/// The text of a message.
pub fn extract_text_content(msg: &Json) -> (r: String)
    ensures
        r@ == message_text(msg@),
{
    let mut out = String::new();
    match msg.get("content") {
        Some(Json::Str(s)) => {
            out.append(s.as_str());
            assert(out@ =~= s@);
        },
        Some(Json::Array(parts)) => {
            let ghost views = array_views(parts@);
            let mut found: bool = false;
            let mut i: usize = 0;
            assert(out@ =~= spaced(texts_in(views.take(0))));
            while i < parts.len()
                invariant
                    i <= parts@.len(),
                    views == array_views(parts@),
                    found == (texts_in(views.take(i as int)).len() > 0),
                    out@ == spaced(texts_in(views.take(i as int))),
                decreases parts@.len() - i,
            {
                let ghost before = texts_in(views.take(i as int));
                assert(views.take(i + 1).drop_last() =~= views.take(i as int));
                if let Some(text) = text_of_part(&parts[i]) {
                    assert(before.push(text@).drop_last() =~= before);
                    if found {
                        out.append(" ");
                    }
                    out.append(text);
                    found = true;
                    assert(out@ =~= spaced(before.push(text@)));
                }
                i = i + 1;
            }
            assert(views.take(views.len() as int) =~= views);
        },
        _ => {},
    }
    out
}

/// The texts of the parts of a step, one behind the other.
pub open spec fn part_texts(parts: Seq<JsonView>) -> Seq<char>
    decreases parts.len(),
{
    if parts.len() == 0 {
        Seq::empty()
    } else {
        part_texts(parts.drop_last()) + or_empty(parts.last().str_at("text"@))
    }
}

/// The text of a step: the content of model output, the summary of a thought.
pub open spec fn step_text(step: JsonView) -> Seq<char> {
    if has_type(step, "model_output"@) {
        part_texts(or_none(step.array_at("content"@)))
    } else if has_type(step, "thought"@) {
        part_texts(or_none(step.array_at("summary"@)))
    } else {
        Seq::empty()
    }
}

/// The texts of steps, one behind the other.
pub open spec fn steps_text(steps: Seq<JsonView>) -> Seq<char>
    decreases steps.len(),
{
    if steps.len() == 0 {
        Seq::empty()
    } else {
        steps_text(steps.drop_last()) + step_text(steps.last())
    }
}

/// The steps of an interaction.
pub open spec fn steps_of(interaction: JsonView) -> Seq<JsonView> {
    or_none(interaction.array_at("steps"@))
}

fn push_part_texts(out: &mut String, parts: &Vec<Json>)
    ensures
        final(out)@ == old(out)@ + part_texts(array_views(parts@)),
{
    let ghost before = out@;
    let ghost views = array_views(parts@);
    let mut i: usize = 0;
    assert(out@ =~= before + part_texts(views.take(0)));
    while i < parts.len()
        invariant
            i <= parts@.len(),
            views == array_views(parts@),
            out@ == before + part_texts(views.take(i as int)),
        decreases parts@.len() - i,
    {
        assert(views.take(i + 1).drop_last() =~= views.take(i as int));
        if let Some(t) = parts[i].str_at("text") {
            out.append(t);
        }
        i = i + 1;
        assert(out@ =~= before + part_texts(views.take(i as int)));
    }
    assert(views.take(views.len() as int) =~= views);
}

fn push_step_text(out: &mut String, step: &Json)
    ensures
        final(out)@ == old(out)@ + step_text(step@),
{
    let ghost before = out@;
    if of_type(step, "model_output") {
        if let Some(parts) = step.array_at("content") {
            push_part_texts(out, parts);
        }
    } else if of_type(step, "thought") {
        if let Some(parts) = step.array_at("summary") {
            push_part_texts(out, parts);
        }
    }
    assert(out@ =~= before + step_text(step@));
}

/// The text in which an interaction answers: that of its steps, in their order.
pub fn extract_model_output_text(interaction: &Json) -> (r: String)
    ensures
        r@ == steps_text(steps_of(interaction@)),
{
    let mut out = String::new();
    if let Some(steps) = interaction.array_at("steps") {
        let ghost views = array_views(steps@);
        let mut i: usize = 0;
        assert(out@ =~= steps_text(views.take(0)));
        while i < steps.len()
            invariant
                i <= steps@.len(),
                views == array_views(steps@),
                out@ == steps_text(views.take(i as int)),
            decreases steps@.len() - i,
        {
            assert(views.take(i + 1).drop_last() =~= views.take(i as int));
            push_step_text(&mut out, &steps[i]);
            i = i + 1;
        }
        assert(views.take(views.len() as int) =~= views);
    }
    out
}

/// The arguments of a function call as text: a string as it is, anything else as JSON, the
/// empty object where there are none.
pub open spec fn arguments_text(step: JsonView) -> Seq<char> {
    match step.get("arguments"@) {
        Some(JsonView::Str(s)) => s,
        Some(arguments) => json_text(arguments),
        None => "{}"@,
    }
}

/// The tool call that a `function_call` step is shown as.
pub open spec fn tool_call(step: JsonView) -> JsonView {
    object_of(
        seq![
            ("id"@, JsonView::Str(or_empty(step.str_at("id"@)))),
            ("type"@, JsonView::Str("function"@)),
            (
                "function"@,
                object_of(
                    seq![
                        ("name"@, JsonView::Str(or_empty(step.str_at("name"@)))),
                        ("arguments"@, JsonView::Str(arguments_text(step))),
                    ],
                ),
            ),
        ],
    )
}

/// The tool calls among steps, in their order.
pub open spec fn tool_calls(steps: Seq<JsonView>) -> Seq<JsonView>
    decreases steps.len(),
{
    if steps.len() == 0 {
        Seq::empty()
    } else {
        let rest = tool_calls(steps.drop_last());
        if has_type(steps.last(), "function_call"@) {
            rest.push(tool_call(steps.last()))
        } else {
            rest
        }
    }
}

fn text_or_empty(text: Option<&str>) -> (r: Json)
    ensures
        r@ == JsonView::Str(or_empty(opt_text(text))),
{
    match text {
        Some(s) => text_json(s),
        None => Json::Str(String::new()),
    }
}

fn step_tool_call(step: &Json) -> (r: Json)
    ensures
        r@ == tool_call(step@),
{
    let arguments: Json = match step.get("arguments") {
        Some(Json::Str(s)) => text_json(s.as_str()),
        Some(arguments) => Json::Str(print_json(arguments)),
        None => text_json("{}"),
    };
    let mut function: Vec<(String, Json)> = Vec::new();
    function.push(member("name", text_or_empty(step.str_at("name"))));
    function.push(member("arguments", arguments));
    assert(entry_views(function@) =~= seq![
        ("name"@, JsonView::Str(or_empty(step@.str_at("name"@)))),
        ("arguments"@, JsonView::Str(arguments_text(step@))),
    ]);
    let mut members: Vec<(String, Json)> = Vec::new();
    members.push(member("id", text_or_empty(step.str_at("id"))));
    members.push(member("type", text_json("function")));
    members.push(member("function", Json::Object(function)));
    assert(entry_views(members@) =~= seq![
        ("id"@, JsonView::Str(or_empty(step@.str_at("id"@)))),
        ("type"@, JsonView::Str("function"@)),
        ("function"@, object_of(entry_views(function@))),
    ]);
    Json::Object(members)
}

/// The function calls of an interaction as tool calls.
pub fn extract_tool_calls(interaction: &Json) -> (r: Vec<Json>)
    ensures
        array_views(r@) == tool_calls(steps_of(interaction@)),
{
    let mut out: Vec<Json> = Vec::new();
    assert(array_views(out@) =~= Seq::empty());
    if let Some(steps) = interaction.array_at("steps") {
        let ghost views = array_views(steps@);
        let mut i: usize = 0;
        while i < steps.len()
            invariant
                i <= steps@.len(),
                views == array_views(steps@),
                array_views(out@) == tool_calls(views.take(i as int)),
            decreases steps@.len() - i,
        {
            assert(views.take(i + 1).drop_last() =~= views.take(i as int));
            let ghost before = out@;
            if of_type(&steps[i], "function_call") {
                let call: Json = step_tool_call(&steps[i]);
                out.push(call);
                assert(array_views(out@) =~= array_views(before).push(call@));
            }
            i = i + 1;
        }
        assert(views.take(views.len() as int) =~= views);
    }
    out
}

} // verus!
