//! Laws of conversations: how one turn leads to the next.
use vstd::prelude::*;
use vstd::utf8::*;

use crate::answer::{
    answer_head, choice_of, finished_turn, is_unfinished, next_key, reply_message, turn_chunk,
    turn_completion, usage_of, TurnView,
};
use crate::codec::{base64_text, json_text};
use crate::config::ConfigView;
use crate::content::{message_text, steps_of, steps_text, tool_calls};
use crate::executor::{
    addressee, array_member, chat_request, environment_of, execution_of, host_request,
    interactions_request, is_agent, needs_environment, previous_of, request_body, request_call,
    session_of, text_array_of, text_member, turn_of, user_input, PendingView,
};
use crate::json::{
    lemma_entries_map_absent, lemma_entries_map_at, object_of, or_empty, JsonView,
};
use crate::session::{
    bound, or_none, role_of, session_at, session_key, session_text, system_messages, SessionView,
};

verus! {

/// The keys of a request to the Interactions API differ from each other.
pub proof fn lemma_request_keys()
    ensures
        "agent"@ != "environment"@,
        "agent"@ != "model"@,
        "agent"@ != "previous_interaction_id"@,
        "agent"@ != "store"@,
        "agent"@ != "input"@,
        "agent"@ != "tools"@,
        "environment"@ != "model"@,
        "environment"@ != "previous_interaction_id"@,
        "environment"@ != "store"@,
        "environment"@ != "input"@,
        "environment"@ != "tools"@,
        "model"@ != "previous_interaction_id"@,
        "model"@ != "store"@,
        "model"@ != "input"@,
        "model"@ != "tools"@,
        "previous_interaction_id"@ != "store"@,
        "previous_interaction_id"@ != "input"@,
        "previous_interaction_id"@ != "tools"@,
        "store"@ != "input"@,
        "store"@ != "tools"@,
        "input"@ != "tools"@,
{
    reveal_strlit("agent");
    reveal_strlit("environment");
    reveal_strlit("model");
    reveal_strlit("previous_interaction_id");
    reveal_strlit("store");
    reveal_strlit("input");
    reveal_strlit("tools");
    assert("agent"@.len() == 5 && "agent"@[0] == 'a');
    assert("model"@.len() == 5 && "model"@[0] == 'm');
    assert("store"@.len() == 5 && "store"@[0] == 's');
    assert("input"@.len() == 5 && "input"@[0] == 'i');
    assert("tools"@.len() == 5 && "tools"@[0] == 't');
    assert("environment"@.len() == 11);
    assert("previous_interaction_id"@.len() == 23);
}

/// The members of a request to the Interactions API: it is addressed to an agent, with its
/// environment, or to a model and never to both; it continues the interaction of the session;
/// and its input is the latest turn alone.
pub proof fn law_request_members(
    config: ConfigView,
    model: Seq<char>,
    session: Option<SessionView>,
    text: Seq<char>,
    tools: Option<Seq<JsonView>>,
)
    ensures
        ({
            let request = interactions_request(config, model, session, text, tools);
            &&& request.str_at("agent"@) == if is_agent(config, model) {
                Some(model)
            } else {
                None
            }
            &&& request.str_at("model"@) == if is_agent(config, model) {
                None
            } else {
                Some(model)
            }
            &&& request.str_at("environment"@) == if is_agent(config, model) {
                environment_of(config, model, session)
            } else {
                None
            }
            &&& request.str_at("previous_interaction_id"@) == previous_of(session)
            &&& request.get("store"@) == Some(JsonView::Bool(config.store))
            &&& request.array_at("input"@) == Some(seq![user_input(text)])
            &&& request.array_at("tools"@) == tools
        }),
{
    lemma_request_keys();
    let head = addressee(config, model, session);
    let previous = text_member("previous_interaction_id"@, previous_of(session));
    let body = seq![
        ("store"@, JsonView::Bool(config.store)),
        ("input"@, JsonView::Array(seq![user_input(text)])),
    ];
    let tail = array_member("tools"@, tools);
    let all = head + previous + body + tail;
    let h = head.len() as int;
    let p = previous.len() as int;
    let request = interactions_request(config, model, session, text, tools);
    assert(request == object_of(all));
    assert(all[h + p] == body[0]);
    assert(all[h + p + 1] == body[1]);
    lemma_entries_map_at(all, h + p);
    lemma_entries_map_at(all, h + p + 1);
    assert(all[0] == head[0]);
    lemma_entries_map_at(all, 0);
    if is_agent(config, model) {
        lemma_entries_map_absent(all, "model"@);
        if environment_of(config, model, session) is Some {
            assert(all[1] == head[1]);
            lemma_entries_map_at(all, 1);
        } else {
            lemma_entries_map_absent(all, "environment"@);
        }
    } else {
        lemma_entries_map_absent(all, "agent"@);
        lemma_entries_map_absent(all, "environment"@);
    }
    if previous_of(session) is Some {
        assert(all[h] == previous[0]);
        lemma_entries_map_at(all, h);
    } else {
        lemma_entries_map_absent(all, "previous_interaction_id"@);
    }
    if tools is Some {
        assert(all[h + p + 2] == tail[0]);
        lemma_entries_map_at(all, h + p + 2);
    } else {
        lemma_entries_map_absent(all, "tools"@);
    }
}

/// Whether two requests bring the same tools and generation settings.
pub open spec fn same_settings(a: JsonView, b: JsonView) -> bool {
    &&& a.array_at("tools"@) == b.array_at("tools"@)
    &&& a.get("generation_config"@) == b.get("generation_config"@)
}

/// A message of another role is no system message.
proof fn lemma_system_push(messages: Seq<JsonView>, message: JsonView)
    requires
        role_of(message) != Some("system"@),
    ensures
        system_messages(messages.push(message)) == system_messages(messages),
{
    assert(messages.push(message).drop_last() =~= messages);
}

/// The reply to a turn is a message of the assistant.
proof fn lemma_reply_role(interaction: JsonView)
    ensures
        role_of(reply_message(interaction)) == Some("assistant"@),
        role_of(reply_message(interaction)) != Some("system"@),
{
    reveal_strlit("role");
    reveal_strlit("content");
    reveal_strlit("tool_calls");
    reveal_strlit("assistant");
    reveal_strlit("system");
    assert("role"@.len() == 4);
    assert("content"@.len() == 7);
    assert("tool_calls"@.len() == 10);
    assert("assistant"@.len() == 9);
    assert("system"@.len() == 6);
    let calls = tool_calls(steps_of(interaction));
    let text = steps_text(steps_of(interaction));
    let entries = seq![
        ("role"@, JsonView::Str("assistant"@)),
        ("content"@, JsonView::Str(text)),
    ] + if calls.len() == 0 {
        Seq::empty()
    } else {
        seq![("tool_calls"@, JsonView::Array(calls))]
    };
    assert(entries[0] == ("role"@, JsonView::Str("assistant"@)));
    lemma_entries_map_at(entries, 0);
}

/// The latest turn is not in the key: two requests for the same model with the same messages
/// before the last one, neither of which is a system message, and with the same settings
/// continue the same session.
pub proof fn law_latest_turn_not_in_key(
    sessions: Map<Seq<u8>, SessionView>,
    model: Seq<char>,
    history: Seq<JsonView>,
    a: JsonView,
    last_a: JsonView,
    b: JsonView,
    last_b: JsonView,
)
    requires
        a.array_at("messages"@) == Some(history.push(last_a)),
        b.array_at("messages"@) == Some(history.push(last_b)),
        last_a.str_at("role"@) != Some("system"@),
        last_b.str_at("role"@) != Some("system"@),
        same_settings(a, b),
    ensures
        session_of(sessions, model, a) == session_of(sessions, model, b),
{
    lemma_system_push(history, last_a);
    lemma_system_push(history, last_b);
    assert(history.push(last_a).drop_last() =~= history);
    assert(history.push(last_b).drop_last() =~= history);
    assert(session_text(model, history, a) == session_text(model, history, b));
}

/// The next turn continues the conversation: after a turn that ended well, a request for the
/// same model with the same settings, whose messages are those of the turn, the reply to it
/// and one more message, finds the session that is bound to this history. That is the session
/// of the turn, unless an earlier turn with the same messages and the same reply has bound its
/// own.
pub proof fn law_next_turn_finds_session(
    sessions: Map<Seq<u8>, SessionView>,
    pending: PendingView,
    interaction: JsonView,
    created: i64,
    next: JsonView,
    last: JsonView,
)
    requires
        finished_turn(pending, interaction, created) is Ok,
        pending.request.array_at("messages"@) is Some,
        next.array_at("messages"@) == Some(
            pending.request.array_at("messages"@)->0.push(reply_message(interaction)).push(last),
        ),
        last.str_at("role"@) != Some("system"@),
        same_settings(pending.request, next),
    ensures
        ({
            let turn = finished_turn(pending, interaction, created)->Ok_0;
            let found = session_of(
                bound(sessions, turn.key, turn.session),
                pending.model,
                next,
            );
            found == match session_at(sessions, turn.key) {
                Some(first) => Some(first),
                None => Some(turn.session),
            }
        }),
{
    let messages = pending.request.array_at("messages"@)->0;
    let history = messages.push(reply_message(interaction));
    lemma_reply_role(interaction);
    lemma_system_push(messages, reply_message(interaction));
    lemma_system_push(history, last);
    assert(history.push(last).drop_last() =~= history);
    assert(session_text(pending.model, history, pending.request) == session_text(
        pending.model,
        history,
        next,
    ));
}

/// The next turn is sent on: the request that follows a turn that ended well is posted with
/// the interaction bound to its history as the previous one, with its environment where it
/// goes to an agent and one was captured, and with the new message alone as input. The
/// interaction and the environment are those of the turn, unless an earlier turn with the same
/// messages and the same reply has bound its own.
pub proof fn law_next_turn_is_chained(
    config: ConfigView,
    sessions: Map<Seq<u8>, SessionView>,
    pending: PendingView,
    interaction: JsonView,
    created: i64,
    raw: Seq<u8>,
    req: JsonView,
    next: JsonView,
    last: JsonView,
    stream: bool,
)
    requires
        finished_turn(pending, interaction, created) is Ok,
        pending.request.array_at("messages"@) is Some,
        chat_request(raw) == Ok::<(JsonView, Seq<char>, JsonView), Seq<char>>(
            (req, pending.model, next),
        ),
        next.array_at("messages"@) == Some(
            pending.request.array_at("messages"@)->0.push(reply_message(interaction)).push(last),
        ),
        last.str_at("role"@) != Some("system"@),
        message_text(last).len() > 0,
        same_settings(pending.request, next),
    ensures
        ({
            let turn = finished_turn(pending, interaction, created)->Ok_0;
            let after = bound(sessions, turn.key, turn.session);
            let session = after[turn.key];
            let body = request_body(config, after, pending.model, next);
            &&& execution_of(config, after, raw, stream) == Ok::<PendingView, Seq<char>>(
                PendingView {
                    payload: encode_utf8(
                        json_text(request_call(config, after, req, pending.model, next)),
                    ),
                    model: pending.model,
                    request: next,
                    stream,
                },
            )
            &&& session.interaction_id.len() > 0 ==> body.str_at("previous_interaction_id"@)
                == Some(session.interaction_id)
            &&& is_agent(config, pending.model) && session.environment_id is Some
                ==> body.str_at("environment"@) == session.environment_id
            &&& !sessions.contains_key(turn.key) ==> session == (SessionView {
                interaction_id: or_empty(interaction.str_at("id"@)),
                environment_id: interaction.str_at("environment_id"@),
            })
            &&& body.array_at("input"@) == Some(seq![user_input(message_text(last))])
        }),
{
    let turn = finished_turn(pending, interaction, created)->Ok_0;
    law_next_turn_finds_session(sessions, pending, interaction, created, next, last);
    law_request_members(
        config,
        pending.model,
        Some(bound(sessions, turn.key, turn.session)[turn.key]),
        message_text(last),
        next.array_at("tools"@),
    );
}

/// Without a session a turn starts afresh and is carried out all the same: no interaction is
/// continued, an agent that needs an environment gets the configured one, if one is configured,
/// any other agent or model gets none, and the input is the latest turn alone, whatever history
/// stands before it.
pub proof fn law_miss_starts_afresh(
    config: ConfigView,
    sessions: Map<Seq<u8>, SessionView>,
    req: JsonView,
    model: Seq<char>,
    openai: JsonView,
    history: Seq<JsonView>,
    last: JsonView,
    stream: bool,
)
    requires
        openai.array_at("messages"@) == Some(history.push(last)),
        message_text(last).len() > 0,
        session_of(sessions, model, openai) is None,
    ensures
        turn_of(config, sessions, req, model, openai, stream) is Ok,
        ({
            let body = request_body(config, sessions, model, openai);
            &&& body.get("previous_interaction_id"@) is None
            &&& body.get("environment"@) == if is_agent(config, model) && needs_environment(model)
                && config.default_environment.len() > 0 {
                Some(JsonView::Str(config.default_environment))
            } else {
                None
            }
            &&& body.array_at("input"@) == Some(seq![user_input(message_text(last))])
        }),
{
    let text = message_text(last);
    let tools = openai.array_at("tools"@);
    law_request_members(config, model, None, text, tools);
    lemma_request_keys();
    let all = addressee(config, model, None) + text_member(
        "previous_interaction_id"@,
        previous_of(None),
    ) + seq![
        ("store"@, JsonView::Bool(config.store)),
        ("input"@, JsonView::Array(seq![user_input(text)])),
    ] + array_member("tools"@, tools);
    lemma_entries_map_absent(all, "previous_interaction_id"@);
    if !is_agent(config, model) || environment_of(config, model, None) is None {
        lemma_entries_map_absent(all, "environment"@);
    }
}

/// The message that a client is shown is the one that the next turn is found by: the answer to
/// a turn, in one piece or as a chunk, holds it in its only choice.
pub proof fn law_reply_shown_is_remembered(
    pending: PendingView,
    interaction: JsonView,
    created: i64,
)
    ensures
        turn_completion(pending, interaction, created).array_at("choices"@) == Some(
            seq![choice_of("message"@, reply_message(interaction))],
        ),
        choice_of("message"@, reply_message(interaction)).get("message"@) == Some(
            reply_message(interaction),
        ),
        turn_chunk(pending, interaction, created).array_at("choices"@) == Some(
            seq![choice_of("delta"@, reply_message(interaction))],
        ),
        choice_of("delta"@, reply_message(interaction)).get("delta"@) == Some(
            reply_message(interaction),
        ),
        finished_turn(pending, interaction, created) matches Ok(turn) ==> turn.key == session_key(
            pending.model,
            or_none(pending.request.array_at("messages"@)).push(reply_message(interaction)),
            pending.request,
        ),
{
    reveal_strlit("index");
    reveal_strlit("message");
    reveal_strlit("delta");
    reveal_strlit("finish_reason");
    reveal_strlit("choices");
    reveal_strlit("usage");
    assert("index"@.len() == 5);
    assert("message"@.len() == 7);
    assert("delta"@.len() == 5);
    assert("finish_reason"@.len() == 13);
    assert("choices"@.len() == 7);
    assert("usage"@.len() == 5);
    let reply = reply_message(interaction);
    let id = or_empty(interaction.str_at("id"@));
    let message = choice_of("message"@, reply);
    let delta = choice_of("delta"@, reply);
    lemma_entries_map_at(
        seq![
            ("index"@, JsonView::Int(0)),
            ("message"@, reply),
            ("finish_reason"@, JsonView::Str("stop"@)),
        ],
        1,
    );
    lemma_entries_map_at(
        seq![
            ("index"@, JsonView::Int(0)),
            ("delta"@, reply),
            ("finish_reason"@, JsonView::Str("stop"@)),
        ],
        1,
    );
    let usage = usage_of(interaction);
    let head = answer_head(id, "chat.completion"@, created, pending.model, message);
    let counts = object_of(
        seq![
            ("prompt_tokens"@, JsonView::Int(usage.prompt_tokens)),
            ("completion_tokens"@, JsonView::Int(usage.completion_tokens)),
            ("total_tokens"@, JsonView::Int(usage.total_tokens)),
        ],
    );
    let completion = head + seq![("usage"@, counts)];
    assert(completion[4] == head[4]);
    assert(completion[5] == ("usage"@, counts));
    lemma_entries_map_at(completion, 4);
    lemma_entries_map_at(
        answer_head(id, "chat.completion.chunk"@, created, pending.model, delta),
        4,
    );
}

/// Whether a turn can be made does not depend on the sessions: a request that finds none is
/// still carried out.
pub proof fn law_turn_needs_no_session(
    config: ConfigView,
    sessions: Map<Seq<u8>, SessionView>,
    others: Map<Seq<u8>, SessionView>,
    req: JsonView,
    model: Seq<char>,
    openai: JsonView,
    stream: bool,
)
    ensures
        turn_of(config, sessions, req, model, openai, stream) is Ok <==> turn_of(
            config,
            others,
            req,
            model,
            openai,
            stream,
        ) is Ok,
        turn_of(config, sessions, req, model, openai, stream) matches Err(e) ==> turn_of(
            config,
            others,
            req,
            model,
            openai,
            stream,
        ) == Err::<PendingView, Seq<char>>(e),
{
}

/// The sessions after turns that ended well.
pub open spec fn after_turns(
    sessions: Map<Seq<u8>, SessionView>,
    turns: Seq<TurnView>,
) -> Map<Seq<u8>, SessionView>
    decreases turns.len(),
{
    if turns.len() == 0 {
        sessions
    } else {
        bound(after_turns(sessions, turns.drop_last()), turns.last().key, turns.last().session)
    }
}

/// A turn that ends well has its key bound, to its own session if it is the first to bind it,
/// and leaves every other key alone.
pub proof fn law_turn_keeps_other_sessions(
    sessions: Map<Seq<u8>, SessionView>,
    pending: PendingView,
    interaction: JsonView,
    created: i64,
    key: Seq<u8>,
)
    requires
        finished_turn(pending, interaction, created) is Ok,
    ensures
        ({
            let turn = finished_turn(pending, interaction, created)->Ok_0;
            let after = bound(sessions, turn.key, turn.session);
            &&& turn.key == next_key(pending, interaction)
            &&& session_at(after, turn.key) == match session_at(sessions, turn.key) {
                Some(first) => Some(first),
                None => Some(turn.session),
            }
            &&& key != turn.key ==> session_at(after, key) == session_at(sessions, key)
        }),
{
}

/// The first response writes the binding: whatever turns end well after one another, and be
/// they for the same key, a key that is bound stays bound to what it was bound to.
pub proof fn law_first_binding_stays(
    sessions: Map<Seq<u8>, SessionView>,
    turns: Seq<TurnView>,
    key: Seq<u8>,
)
    requires
        sessions.contains_key(key),
    ensures
        session_at(after_turns(sessions, turns), key) == session_at(sessions, key),
    decreases turns.len(),
{
    if turns.len() > 0 {
        law_first_binding_stays(sessions, turns.drop_last(), key);
    }
}

/// Whether an answer is streamed, and when it is made, does not matter to the session that a
/// turn leaves.
pub proof fn law_session_same_for_stream(
    pending: PendingView,
    interaction: JsonView,
    created: i64,
    other_stream: bool,
    other_created: i64,
)
    ensures
        ({
            let other = PendingView { stream: other_stream, ..pending };
            match (
                finished_turn(pending, interaction, created),
                finished_turn(other, interaction, other_created),
            ) {
                (Ok(a), Ok(b)) => a.key == b.key && a.session == b.session,
                (Err(a), Err(b)) => a == b,
                _ => false,
            }
        }),
{
}

/// A request is posted to the configured endpoint, as JSON, with the API key that the host
/// selected and for the host callback that it names.
pub proof fn law_call_members(
    endpoint: Seq<char>,
    api_key: Seq<char>,
    body: JsonView,
    host_callback_id: Seq<char>,
)
    ensures
        ({
            let call = host_request(endpoint, api_key, body, host_callback_id);
            &&& call.str_at("method"@) == Some("POST"@)
            &&& call.str_at("url"@) == Some(endpoint)
            &&& call.get("headers"@) matches Some(headers) && headers.get("x-goog-api-key"@)
                == Some(text_array_of(api_key)) && headers.get("content-type"@) == Some(
                text_array_of("application/json"@),
            )
            &&& call.str_at("body"@) == Some(base64_text(encode_utf8(json_text(body))))
            &&& call.str_at("host_callback_id"@) == Some(host_callback_id)
        }),
{
    reveal_strlit("method");
    reveal_strlit("url");
    reveal_strlit("headers");
    reveal_strlit("body");
    reveal_strlit("host_callback_id");
    reveal_strlit("x-goog-api-key");
    reveal_strlit("content-type");
    assert("method"@.len() == 6);
    assert("url"@.len() == 3);
    assert("headers"@.len() == 7);
    assert("body"@.len() == 4);
    assert("host_callback_id"@.len() == 16);
    assert("x-goog-api-key"@.len() == 14);
    assert("content-type"@.len() == 12);
    let headers = seq![
        ("x-goog-api-key"@, text_array_of(api_key)),
        ("content-type"@, text_array_of("application/json"@)),
    ];
    lemma_entries_map_at(headers, 0);
    lemma_entries_map_at(headers, 1);
    let members = seq![
        ("method"@, JsonView::Str("POST"@)),
        ("url"@, JsonView::Str(endpoint)),
        ("headers"@, object_of(headers)),
        ("body"@, JsonView::Str(base64_text(encode_utf8(json_text(body))))),
        ("host_callback_id"@, JsonView::Str(host_callback_id)),
    ];
    lemma_entries_map_at(members, 0);
    lemma_entries_map_at(members, 1);
    lemma_entries_map_at(members, 2);
    lemma_entries_map_at(members, 3);
    lemma_entries_map_at(members, 4);
}

/// Steps without a function call make no tool calls.
proof fn lemma_no_tool_calls(steps: Seq<JsonView>)
    requires
        forall|i: int| 0 <= i < steps.len() ==> (#[trigger] steps[i]).str_at("type"@) != Some(
            "function_call"@,
        ),
    ensures
        tool_calls(steps).len() == 0,
    decreases steps.len(),
{
    if steps.len() > 0 {
        assert(steps[steps.len() - 1].str_at("type"@) != Some("function_call"@));
        lemma_no_tool_calls(steps.drop_last());
    }
}

/// The reply of an interaction without function calls is a role and a text, and nothing else:
/// a client that sends back these two continues the conversation.
pub proof fn law_plain_reply(interaction: JsonView)
    requires
        forall|i: int|
            0 <= i < steps_of(interaction).len() ==> (#[trigger] steps_of(interaction)[i]).str_at(
                "type"@,
            ) != Some("function_call"@),
    ensures
        reply_message(interaction) == object_of(
            seq![
                ("role"@, JsonView::Str("assistant"@)),
                ("content"@, JsonView::Str(steps_text(steps_of(interaction)))),
            ],
        ),
{
    lemma_no_tool_calls(steps_of(interaction));
    let head = seq![
        ("role"@, JsonView::Str("assistant"@)),
        ("content"@, JsonView::Str(steps_text(steps_of(interaction)))),
    ];
    assert(head + Seq::empty() =~= head);
}

/// An interaction that is still going on is an error.
pub proof fn law_unfinished_interaction_fails(
    pending: PendingView,
    interaction: JsonView,
    created: i64,
)
    requires
        is_unfinished(or_empty(interaction.str_at("status"@))),
    ensures
        finished_turn(pending, interaction, created) is Err,
{
}

} // verus!
