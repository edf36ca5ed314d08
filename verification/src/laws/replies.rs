//! Laws of replies: how the host's reply is read, and what the client is answered.
use vstd::prelude::*;
use vstd::utf8::*;

use crate::answer::{
    answer_head, chat_chunk, chat_completion, choice_of, completion_envelope, finished_turn,
    host_error, interaction_of, reply_body, reply_message, settled_turn, settles, status_of,
    stream_envelope, turn_chunk, turn_completion, turn_response, upstream_body, usage_of,
    HostReply, TurnView, Usage,
};
use crate::codec::{base64_bytes, json_parse, utf8_lossy};
use crate::content::{steps_of, steps_text, tool_calls};
use crate::executor::PendingView;
use crate::json::{
    lemma_entries_map_absent, lemma_entries_map_at, object_of, or_empty, JsonView,
};
use crate::session::{assistant_message, session_key, SessionView};
use crate::text::decimal_of;

verus! {

/// A host that could be called and returned 0 has replied with its body, whole; any other
/// reply is an error of its own.
pub proof fn law_host_reply(rc: i32, body: Vec<u8>)
    ensures
        reply_body(HostReply::Returned { rc: 0, body }) == Ok::<Seq<u8>, Seq<char>>(body@),
        rc != 0 ==> reply_body(HostReply::Returned { rc, body }) == Err::<Seq<u8>, Seq<char>>(
            "host.http.do returned rc="@ + decimal_of(rc as int),
        ),
        reply_body(HostReply::NotInitialized) == Err::<Seq<u8>, Seq<char>>(
            "host api not initialized"@,
        ),
        reply_body(HostReply::NoCallFunction) == Err::<Seq<u8>, Seq<char>>(
            "host call function missing"@,
        ),
{
}

/// The status is the one that the host names, 0 where it names none; of a number that has no
/// room in 32 bits the low 32 bits count.
pub proof fn law_status(result: JsonView, code: i64)
    ensures
        result.get("status_code"@) == Some(JsonView::Int(code)) && -0x8000_0000 <= code
            <= 0x7fff_ffff ==> status_of(result) == code,
        result.get("status_code"@) == Some(JsonView::Int(code)) ==> (code - status_of(result))
            % 0x1_0000_0000 == 0,
        !(result.get("status_code"@) matches Some(JsonView::Int(_))) ==> status_of(result) == 0,
{
    assert(-0x8000_0000 <= code <= 0x7fff_ffff ==> code as i32 == code) by (bit_vector);
    let cut: i64 = (code as i32) as i64;
    assert((code & 0xffff_ffff) == (((code as i32) as i64) & 0xffff_ffff)) by (bit_vector);
    lemma_low_bits(code);
    lemma_low_bits(cut);
    assert(cut == code as i32);
    assert(code % 0x1_0000_0000 == cut % 0x1_0000_0000);
    vstd::arithmetic::div_mod::lemma_mod_equivalence(code as int, cut as int, 0x1_0000_0000);
    assert((0i64 as i32) == 0) by (bit_vector);
}

proof fn lemma_low_bits(n: i64)
    ensures
        (n & 0xffff_ffff) as int == n as int % 0x1_0000_0000,
{
    assert((n & 0xffff_ffff) == n % 0x1_0000_0000) by (bit_vector);
}

/// A host that says `ok`, with a result whose status is 200 and whose body is base64 text, has
/// brought the bytes of that text, whole.
pub proof fn law_upstream_body_found(
    env: JsonView,
    result: JsonView,
    text: Seq<char>,
    bytes: Seq<u8>,
)
    requires
        env.get("ok"@) == Some(JsonView::Bool(true)),
        env.get("result"@) == Some(result),
        status_of(result) == 200,
        result.get("body"@) == Some(JsonView::Str(text)),
        base64_bytes(text) == Ok::<Seq<u8>, Seq<char>>(bytes),
    ensures
        upstream_body(env) == Ok::<Seq<u8>, Seq<char>>(bytes),
{
}

/// Anything else is an error: what the host says of its failure, what is missing, what cannot
/// be decoded, or the status with what the upstream says.
pub proof fn law_upstream_errors(
    env: JsonView,
    result: JsonView,
    error: JsonView,
    text: Seq<char>,
    e: Seq<char>,
    bytes: Seq<u8>,
)
    ensures
        env.get("ok"@) != Some(JsonView::Bool(true)) ==> upstream_body(env) == Err::<
            Seq<u8>,
            Seq<char>,
        >(host_error(env)),
        env.get("error"@) == Some(error) && error.get("message"@) == Some(JsonView::Str(text))
            ==> host_error(env) == text,
        env.get("error"@) == Some(error) && error.str_at("message"@) is None ==> host_error(env)
            == "host.http.do failed"@,
        env.get("error"@) is None ==> host_error(env) == "host.http.do failed"@,
        env.get("ok"@) == Some(JsonView::Bool(true)) && env.get("result"@) is None
            ==> upstream_body(env) == Err::<Seq<u8>, Seq<char>>("missing host.http.do result"@),
        env.get("ok"@) == Some(JsonView::Bool(true)) && env.get("result"@) == Some(result) ==> {
            &&& result.str_at("body"@) is None ==> upstream_body(env) == Err::<
                Seq<u8>,
                Seq<char>,
            >("missing host.http.do body"@)
            &&& result.str_at("body"@) == Some(text) && base64_bytes(text) == Err::<
                Seq<u8>,
                Seq<char>,
            >(e) ==> upstream_body(env) == Err::<Seq<u8>, Seq<char>>(
                "decode host.http.do body base64: "@ + e,
            )
            &&& result.str_at("body"@) == Some(text) && base64_bytes(text) == Ok::<
                Seq<u8>,
                Seq<char>,
            >(bytes) && status_of(result) != 200 ==> upstream_body(env) == Err::<
                Seq<u8>,
                Seq<char>,
            >(
                "upstream returned status "@ + decimal_of(status_of(result) as int) + ": "@
                    + utf8_lossy(bytes),
            )
        },
{
}

/// The interaction is what the bytes that the upstream sent are read as; whatever cannot be read
/// on the way is reported.
pub proof fn law_interaction_read(
    body: Vec<u8>,
    reply: HostReply,
    env: JsonView,
    bytes: Seq<u8>,
    interaction: JsonView,
    e: Seq<char>,
)
    ensures
        json_parse(body@) == Ok::<JsonView, Seq<char>>(env) && upstream_body(env) == Ok::<
            Seq<u8>,
            Seq<char>,
        >(bytes) && json_parse(bytes) == Ok::<JsonView, Seq<char>>(interaction) ==> interaction_of(
            HostReply::Returned { rc: 0, body },
        ) == Ok::<JsonView, Seq<char>>(interaction),
        reply_body(reply) == Err::<Seq<u8>, Seq<char>>(e) ==> interaction_of(reply) == Err::<
            JsonView,
            Seq<char>,
        >(e),
        json_parse(body@) == Err::<JsonView, Seq<char>>(e) ==> interaction_of(
            HostReply::Returned { rc: 0, body },
        ) == Err::<JsonView, Seq<char>>("parse host.http.do envelope: "@ + e),
        json_parse(body@) == Ok::<JsonView, Seq<char>>(env) && upstream_body(env) == Err::<
            Seq<u8>,
            Seq<char>,
        >(e) ==> interaction_of(HostReply::Returned { rc: 0, body }) == Err::<JsonView, Seq<char>>(
            e,
        ),
        json_parse(body@) == Ok::<JsonView, Seq<char>>(env) && upstream_body(env) == Ok::<
            Seq<u8>,
            Seq<char>,
        >(bytes) && json_parse(bytes) == Err::<JsonView, Seq<char>>(e) ==> interaction_of(
            HostReply::Returned { rc: 0, body },
        ) == Err::<JsonView, Seq<char>>("parse interaction response: "@ + e),
{
}

/// The reply settles the turn by the interaction in it, or by what is wrong with it.
pub proof fn law_turn_settled_by_interaction(
    pending: PendingView,
    reply: HostReply,
    interaction: JsonView,
    e: Seq<char>,
    created: i64,
)
    ensures
        interaction_of(reply) == Ok::<JsonView, Seq<char>>(interaction) ==> settled_turn(
            pending,
            reply,
            created,
        ) == finished_turn(pending, interaction, created),
        interaction_of(reply) == Err::<JsonView, Seq<char>>(e) ==> settled_turn(
            pending,
            reply,
            created,
        ) == Err::<TurnView, Seq<char>>(e),
{
}

/// An interaction with a name that is not still going on ends its turn well: the session is its
/// name and its environment, found by the messages of the turn and the reply to them. One
/// without a name, or that is still going on, does not.
pub proof fn law_turn_ends(
    pending: PendingView,
    interaction: JsonView,
    id: Seq<char>,
    status: Seq<char>,
    messages: Seq<JsonView>,
    created: i64,
)
    ensures
        interaction.str_at("id"@) is None ==> finished_turn(pending, interaction, created) == Err::<
            TurnView,
            Seq<char>,
        >("missing interaction.id"@),
        interaction.get("id"@) == Some(JsonView::Str(id)) && interaction.str_at("status"@) == Some(
            status,
        ) && (status == "in_progress"@ || status == "requires_action"@) ==> finished_turn(
            pending,
            interaction,
            created,
        ) == Err::<TurnView, Seq<char>>(
            "agent returned non-terminal status "@ + status
                + "; background polling is not supported in v0.1"@,
        ),
        interaction.get("id"@) == Some(JsonView::Str(id)) && interaction.str_at("status"@) != Some(
            "in_progress"@,
        ) && interaction.str_at("status"@) != Some("requires_action"@) && pending.request.get(
            "messages"@,
        ) == Some(JsonView::Array(messages)) ==> (finished_turn(pending, interaction, created)
            matches Ok(turn) && {
            &&& turn.session.interaction_id == id
            &&& turn.session.environment_id == interaction.str_at("environment_id"@)
            &&& turn.key == session_key(
                pending.model,
                messages.push(reply_message(interaction)),
                pending.request,
            )
            &&& turn.response == turn_response(pending, interaction, created)
        }),
{
    reveal_strlit("in_progress");
    reveal_strlit("requires_action");
    assert("in_progress"@.len() == 11);
    assert("requires_action"@.len() == 15);
}

/// The answer is a stream if and only if one was asked for.
pub proof fn law_answer_form(pending: PendingView, interaction: JsonView, created: i64)
    ensures
        pending.stream ==> turn_response(pending, interaction, created) == encode_utf8(
            stream_envelope(turn_chunk(pending, interaction, created)),
        ),
        !pending.stream ==> turn_response(pending, interaction, created) == encode_utf8(
            completion_envelope(turn_completion(pending, interaction, created)),
        ),
{
}

/// A turn that failed answers with its error and leaves the sessions alone; one that ended well
/// answers with its response, and its session is the one of its key unless there was one.
pub proof fn law_turn_settles(
    turn: TurnView,
    e: Seq<char>,
    r: Result<Vec<u8>, String>,
    before: Map<Seq<u8>, SessionView>,
    after: Map<Seq<u8>, SessionView>,
)
    ensures
        settles(Err(e), r, before, after) <==> (r matches Err(text) && text@ == e) && after
            == before,
        settles(Ok(turn), r, before, after) <==> (r matches Ok(bytes) && bytes@ == turn.response)
            && after == if before.contains_key(turn.key) {
            before
        } else {
            before.insert(turn.key, turn.session)
        },
{
}

/// The literals that name the members of answers differ from each other.
proof fn lemma_answer_keys()
    ensures
        "id"@ != "object"@,
        "id"@ != "created"@,
        "id"@ != "model"@,
        "id"@ != "choices"@,
        "id"@ != "usage"@,
        "object"@ != "created"@,
        "object"@ != "model"@,
        "object"@ != "choices"@,
        "object"@ != "usage"@,
        "created"@ != "model"@,
        "created"@ != "choices"@,
        "created"@ != "usage"@,
        "model"@ != "choices"@,
        "model"@ != "usage"@,
        "choices"@ != "usage"@,
        "index"@ != "message"@,
        "index"@ != "delta"@,
        "index"@ != "finish_reason"@,
        "message"@ != "finish_reason"@,
        "delta"@ != "finish_reason"@,
        "prompt_tokens"@ != "completion_tokens"@,
        "prompt_tokens"@ != "total_tokens"@,
        "completion_tokens"@ != "total_tokens"@,
{
    reveal_strlit("id");
    reveal_strlit("object");
    reveal_strlit("created");
    reveal_strlit("model");
    reveal_strlit("choices");
    reveal_strlit("usage");
    reveal_strlit("index");
    reveal_strlit("message");
    reveal_strlit("delta");
    reveal_strlit("finish_reason");
    reveal_strlit("prompt_tokens");
    reveal_strlit("completion_tokens");
    reveal_strlit("total_tokens");
    assert("id"@.len() == 2);
    assert("object"@.len() == 6);
    assert("created"@.len() == 7 && "created"@[1] == 'r');
    assert("choices"@.len() == 7 && "choices"@[1] == 'h');
    assert("model"@.len() == 5 && "model"@[0] == 'm');
    assert("usage"@.len() == 5 && "usage"@[0] == 'u');
    assert("index"@.len() == 5 && "index"@[0] == 'i');
    assert("delta"@.len() == 5 && "delta"@[0] == 'd');
    assert("message"@.len() == 7);
    assert("finish_reason"@.len() == 13);
    assert("prompt_tokens"@.len() == 13);
    assert("completion_tokens"@.len() == 17);
    assert("total_tokens"@.len() == 12);
}

/// A choice is the first and only one, holds the reply under `part`, and says that the model
/// stopped; it has nothing else.
pub proof fn law_choice_members(part: Seq<char>, reply: JsonView, key: Seq<char>)
    requires
        part == "message"@ || part == "delta"@,
    ensures
        choice_of(part, reply).get(key) == if key == "index"@ {
            Some(JsonView::Int(0))
        } else if key == part {
            Some(reply)
        } else if key == "finish_reason"@ {
            Some(JsonView::Str("stop"@))
        } else {
            None
        },
{
    lemma_answer_keys();
    let members = seq![
        ("index"@, JsonView::Int(0)),
        (part, reply),
        ("finish_reason"@, JsonView::Str("stop"@)),
    ];
    lemma_entries_map_at(members, 0);
    lemma_entries_map_at(members, 1);
    lemma_entries_map_at(members, 2);
    if key != "index"@ && key != part && key != "finish_reason"@ {
        lemma_entries_map_absent(members, key);
    }
}

/// An answer in one piece, member by member: its name, the time, the model, the message of the
/// assistant as the only choice, and the usage. It has no other members.
pub proof fn law_completion_members(
    id: Seq<char>,
    model: Seq<char>,
    text: Seq<char>,
    calls: Seq<JsonView>,
    usage: Usage,
    created: i64,
    key: Seq<char>,
)
    ensures
        ({
            let completion = chat_completion(id, model, text, calls, usage, created);
            &&& completion.get("id"@) == Some(JsonView::Str(id))
            &&& completion.get("object"@) == Some(JsonView::Str("chat.completion"@))
            &&& completion.get("created"@) == Some(JsonView::Int(created))
            &&& completion.get("model"@) == Some(JsonView::Str(model))
            &&& completion.get("choices"@) == Some(
                JsonView::Array(seq![choice_of("message"@, assistant_message(text, calls))]),
            )
            &&& completion.get("usage"@) matches Some(counts) && {
                &&& counts.get("prompt_tokens"@) == Some(JsonView::Int(usage.prompt_tokens))
                &&& counts.get("completion_tokens"@) == Some(JsonView::Int(usage.completion_tokens))
                &&& counts.get("total_tokens"@) == Some(JsonView::Int(usage.total_tokens))
                &&& key != "prompt_tokens"@ && key != "completion_tokens"@ && key
                    != "total_tokens"@ ==> counts.get(key) is None
            }
            &&& key != "id"@ && key != "object"@ && key != "created"@ && key != "model"@ && key
                != "choices"@ && key != "usage"@ ==> completion.get(key) is None
        }),
{
    lemma_answer_keys();
    let choice = choice_of("message"@, assistant_message(text, calls));
    let head = answer_head(id, "chat.completion"@, created, model, choice);
    let counts = seq![
        ("prompt_tokens"@, JsonView::Int(usage.prompt_tokens)),
        ("completion_tokens"@, JsonView::Int(usage.completion_tokens)),
        ("total_tokens"@, JsonView::Int(usage.total_tokens)),
    ];
    let all = head + seq![("usage"@, object_of(counts))];
    lemma_entries_map_at(counts, 0);
    lemma_entries_map_at(counts, 1);
    lemma_entries_map_at(counts, 2);
    assert(all[0] == head[0] && all[1] == head[1] && all[2] == head[2] && all[3] == head[3]
        && all[4] == head[4] && all[5] == ("usage"@, object_of(counts)));
    lemma_entries_map_at(all, 0);
    lemma_entries_map_at(all, 1);
    lemma_entries_map_at(all, 2);
    lemma_entries_map_at(all, 3);
    lemma_entries_map_at(all, 4);
    lemma_entries_map_at(all, 5);
    if key != "prompt_tokens"@ && key != "completion_tokens"@ && key != "total_tokens"@ {
        lemma_entries_map_absent(counts, key);
    }
    if key != "id"@ && key != "object"@ && key != "created"@ && key != "model"@ && key
        != "choices"@ && key != "usage"@ {
        lemma_entries_map_absent(all, key);
    }
}

/// The chunk of a stream, member by member. It has no other members.
pub proof fn law_chunk_members(
    id: Seq<char>,
    model: Seq<char>,
    text: Seq<char>,
    calls: Seq<JsonView>,
    created: i64,
    key: Seq<char>,
)
    ensures
        chat_chunk(id, model, text, calls, created).get(key) == if key == "id"@ {
            Some(JsonView::Str(id))
        } else if key == "object"@ {
            Some(JsonView::Str("chat.completion.chunk"@))
        } else if key == "created"@ {
            Some(JsonView::Int(created))
        } else if key == "model"@ {
            Some(JsonView::Str(model))
        } else if key == "choices"@ {
            Some(JsonView::Array(seq![choice_of("delta"@, assistant_message(text, calls))]))
        } else {
            None
        },
{
    lemma_answer_keys();
    let choice = choice_of("delta"@, assistant_message(text, calls));
    let all = answer_head(id, "chat.completion.chunk"@, created, model, choice);
    lemma_entries_map_at(all, 0);
    lemma_entries_map_at(all, 1);
    lemma_entries_map_at(all, 2);
    lemma_entries_map_at(all, 3);
    lemma_entries_map_at(all, 4);
    if key != "id"@ && key != "object"@ && key != "created"@ && key != "model"@ && key
        != "choices"@ {
        lemma_entries_map_absent(all, key);
    }
}

/// A turn is answered under the name of its interaction and for its own model, with the reply of
/// the interaction and its usage.
pub proof fn law_turn_answered(pending: PendingView, interaction: JsonView, created: i64)
    ensures
        ({
            let completion = turn_completion(pending, interaction, created);
            let chunk = turn_chunk(pending, interaction, created);
            &&& completion == chat_completion(
                or_empty(interaction.str_at("id"@)),
                pending.model,
                steps_text(steps_of(interaction)),
                tool_calls(steps_of(interaction)),
                usage_of(interaction),
                created,
            )
            &&& chunk == chat_chunk(
                or_empty(interaction.str_at("id"@)),
                pending.model,
                steps_text(steps_of(interaction)),
                tool_calls(steps_of(interaction)),
                created,
            )
            &&& completion.get("id"@) == Some(JsonView::Str(or_empty(interaction.str_at("id"@))))
            &&& chunk.get("id"@) == completion.get("id"@)
            &&& completion.get("model"@) == Some(JsonView::Str(pending.model))
            &&& chunk.get("model"@) == Some(JsonView::Str(pending.model))
            &&& completion.get("created"@) == Some(JsonView::Int(created))
            &&& chunk.get("created"@) == Some(JsonView::Int(created))
            &&& completion.get("choices"@) == Some(
                JsonView::Array(seq![choice_of("message"@, reply_message(interaction))]),
            )
            &&& chunk.get("choices"@) == Some(
                JsonView::Array(seq![choice_of("delta"@, reply_message(interaction))]),
            )
            &&& completion.get("usage"@) matches Some(counts) && {
                &&& counts.get("prompt_tokens"@) == Some(
                    JsonView::Int(usage_of(interaction).prompt_tokens),
                )
                &&& counts.get("completion_tokens"@) == Some(
                    JsonView::Int(usage_of(interaction).completion_tokens),
                )
                &&& counts.get("total_tokens"@) == Some(
                    JsonView::Int(usage_of(interaction).total_tokens),
                )
            }
        }),
{
    let steps = steps_of(interaction);
    let id = or_empty(interaction.str_at("id"@));
    let text = steps_text(steps);
    let calls = tool_calls(steps);
    lemma_answer_keys();
    law_completion_members(id, pending.model, text, calls, usage_of(interaction), created, "id"@);
    law_chunk_members(id, pending.model, text, calls, created, "id"@);
    law_chunk_members(id, pending.model, text, calls, created, "model"@);
    law_chunk_members(id, pending.model, text, calls, created, "created"@);
    law_chunk_members(id, pending.model, text, calls, created, "choices"@);
}

/// The counts of tokens are those that the interaction gives, each 0 where it gives none.
pub proof fn law_usage_counts(interaction: JsonView, usage: JsonView, n: i64)
    ensures
        interaction.get("usage"@) == Some(usage) ==> {
            &&& usage.get("total_input_tokens"@) == Some(JsonView::Int(n)) ==> usage_of(
                interaction,
            ).prompt_tokens == n
            &&& usage.get("total_output_tokens"@) == Some(JsonView::Int(n)) ==> usage_of(
                interaction,
            ).completion_tokens == n
            &&& usage.get("total_tokens"@) == Some(JsonView::Int(n)) ==> usage_of(
                interaction,
            ).total_tokens == n
            &&& !(usage.get("total_input_tokens"@) matches Some(JsonView::Int(_))) ==> usage_of(
                interaction,
            ).prompt_tokens == 0
            &&& !(usage.get("total_output_tokens"@) matches Some(JsonView::Int(_))) ==> usage_of(
                interaction,
            ).completion_tokens == 0
            &&& !(usage.get("total_tokens"@) matches Some(JsonView::Int(_))) ==> usage_of(
                interaction,
            ).total_tokens == 0
        },
        interaction.get("usage"@) is None ==> usage_of(interaction).prompt_tokens == 0 && usage_of(
            interaction,
        ).completion_tokens == 0 && usage_of(interaction).total_tokens == 0,
{
}

} // verus!
