//! Laws of requests: how an executor request is read, and what is posted for it.
use vstd::prelude::*;
use vstd::utf8::*;

use crate::codec::{base64_bytes, base64_text, json_parse, json_text};
use crate::config::ConfigView;
use crate::content::message_text;
use crate::executor::{
    addressee, api_key_of, array_member, callback_of, chat_request, environment_of, execution_of,
    executor_source, is_agent, needs_environment, previous_of,
    request_body, request_call, session_of, text_array_of, text_member, turn_of, user_input,
    PendingView,
};
use crate::json::{
    lemma_entries_map_absent, lemma_entries_map_at, object_of, or_empty, JsonView,
};
use crate::laws::conversation::lemma_request_keys;
use crate::laws::texts::law_prefix;
use crate::session::SessionView;

verus! {

/// Where an executor request names a model and its `OriginalRequest` is a text, that text is
/// the chat request, whatever other members the request has.
pub proof fn law_original_request_used(req: JsonView, model: Seq<char>, text: Seq<char>)
    requires
        req.get("Model"@) == Some(JsonView::Str(model)),
        model.len() > 0,
        req.get("OriginalRequest"@) == Some(JsonView::Str(text)),
    ensures
        executor_source(req) == Ok::<(Seq<char>, Seq<char>), Seq<char>>((model, text)),
{
}

/// Two executor requests with the same model and the same text as `OriginalRequest` ask for the
/// same chat, whatever their payloads are.
pub proof fn law_payload_does_not_matter(a: JsonView, b: JsonView, text: Seq<char>)
    requires
        a.get("Model"@) == b.get("Model"@),
        a.get("OriginalRequest"@) == Some(JsonView::Str(text)),
        b.get("OriginalRequest"@) == Some(JsonView::Str(text)),
    ensures
        executor_source(a) == executor_source(b),
{
}

/// Only where there is no `OriginalRequest` at all is the payload the chat request.
pub proof fn law_payload_used_in_its_place(req: JsonView, model: Seq<char>, text: Seq<char>)
    requires
        req.get("Model"@) == Some(JsonView::Str(model)),
        model.len() > 0,
        req.get("OriginalRequest"@) is None,
        req.get("Payload"@) == Some(JsonView::Str(text)),
    ensures
        executor_source(req) == Ok::<(Seq<char>, Seq<char>), Seq<char>>((model, text)),
{
}

/// An executor request fails if it names no model, and else if what it carries is no text.
pub proof fn law_executor_request_errors(req: JsonView)
    ensures
        or_empty(req.str_at("Model"@)).len() == 0 ==> executor_source(req) == Err::<
            (Seq<char>, Seq<char>),
            Seq<char>,
        >("executor request missing model"@),
        or_empty(req.str_at("Model"@)).len() > 0 && req.get("OriginalRequest"@) is Some
            && req.str_at("OriginalRequest"@) is None ==> executor_source(req) == Err::<
            (Seq<char>, Seq<char>),
            Seq<char>,
        >("executor request missing OriginalRequest"@),
        or_empty(req.str_at("Model"@)).len() > 0 && req.get("OriginalRequest"@) is None
            && req.str_at("Payload"@) is None ==> executor_source(req) == Err::<
            (Seq<char>, Seq<char>),
            Seq<char>,
        >("executor request missing OriginalRequest"@),
{
}

/// The chat request is what the bytes behind the base64 text of the executor request are read
/// as, and the turn is the one that it asks for.
pub proof fn law_chat_request_decoded(
    config: ConfigView,
    sessions: Map<Seq<u8>, SessionView>,
    raw: Seq<u8>,
    req: JsonView,
    model: Seq<char>,
    text: Seq<char>,
    bytes: Seq<u8>,
    openai: JsonView,
    stream: bool,
)
    requires
        json_parse(raw) == Ok::<JsonView, Seq<char>>(req),
        executor_source(req) == Ok::<(Seq<char>, Seq<char>), Seq<char>>((model, text)),
        base64_bytes(text) == Ok::<Seq<u8>, Seq<char>>(bytes),
        json_parse(bytes) == Ok::<JsonView, Seq<char>>(openai),
    ensures
        chat_request(raw) == Ok::<(JsonView, Seq<char>, JsonView), Seq<char>>((req, model, openai)),
        execution_of(config, sessions, raw, stream) == turn_of(
            config,
            sessions,
            req,
            model,
            openai,
            stream,
        ),
{
}

/// Whatever cannot be read is reported, with the reader's own words behind what was being read.
pub proof fn law_chat_request_errors(
    config: ConfigView,
    sessions: Map<Seq<u8>, SessionView>,
    raw: Seq<u8>,
    e: Seq<char>,
    stream: bool,
)
    ensures
        json_parse(raw) == Err::<JsonView, Seq<char>>(e) ==> execution_of(
            config,
            sessions,
            raw,
            stream,
        ) == Err::<PendingView, Seq<char>>("decode executor request: "@ + e),
        json_parse(raw) matches Ok(req) ==> (executor_source(req) == Err::<
            (Seq<char>, Seq<char>),
            Seq<char>,
        >(e) ==> execution_of(config, sessions, raw, stream) == Err::<PendingView, Seq<char>>(e)),
        json_parse(raw) matches Ok(req) ==> (executor_source(req) matches Ok((_, text)) ==> (
        base64_bytes(text) == Err::<Seq<u8>, Seq<char>>(e) ==> execution_of(
            config,
            sessions,
            raw,
            stream,
        ) == Err::<PendingView, Seq<char>>("decode original request base64: "@ + e))),
        json_parse(raw) matches Ok(req) ==> (executor_source(req) matches Ok((_, text)) ==> (
        base64_bytes(text) matches Ok(bytes) ==> (json_parse(bytes) == Err::<JsonView, Seq<char>>(e)
            ==> execution_of(config, sessions, raw, stream) == Err::<PendingView, Seq<char>>(
            "parse openai request: "@ + e,
        )))),
{
}

/// A chat request whose last message has a text becomes a call: the call is what is posted, and
/// the model, the request and whether to stream are kept for the answer.
pub proof fn law_turn_becomes_call(
    config: ConfigView,
    sessions: Map<Seq<u8>, SessionView>,
    req: JsonView,
    model: Seq<char>,
    openai: JsonView,
    history: Seq<JsonView>,
    last: JsonView,
    stream: bool,
)
    requires
        openai.get("messages"@) == Some(JsonView::Array(history.push(last))),
    ensures
        message_text(last).len() > 0 ==> turn_of(config, sessions, req, model, openai, stream)
            == Ok::<PendingView, Seq<char>>(
            PendingView {
                payload: encode_utf8(json_text(request_call(config, sessions, req, model, openai))),
                model,
                request: openai,
                stream,
            },
        ),
        message_text(last).len() == 0 ==> turn_of(config, sessions, req, model, openai, stream)
            == Err::<PendingView, Seq<char>>("last message has no text content"@),
{
    assert(history.push(last).last() == last);
}

/// A chat request without messages is an error.
pub proof fn law_messages_needed(
    config: ConfigView,
    sessions: Map<Seq<u8>, SessionView>,
    req: JsonView,
    model: Seq<char>,
    openai: JsonView,
    stream: bool,
)
    ensures
        openai.array_at("messages"@) is None ==> turn_of(
            config,
            sessions,
            req,
            model,
            openai,
            stream,
        ) == Err::<PendingView, Seq<char>>("openai request missing messages array"@),
        openai.array_at("messages"@) == Some(Seq::<JsonView>::empty()) ==> turn_of(
            config,
            sessions,
            req,
            model,
            openai,
            stream,
        ) == Err::<PendingView, Seq<char>>("openai request has empty messages"@),
{
}

/// A model is an agent if and only if its very name is among those that are configured.
pub proof fn law_agents_by_name(config: ConfigView, model: Seq<char>, i: int)
    ensures
        0 <= i < config.agents.len() && config.agents[i] == model ==> is_agent(config, model),
        is_agent(config, model) ==> exists|k: int|
            0 <= k < config.agents.len() && config.agents[k] == model,
{
}

/// An agent whose environment was captured gets that one, whatever is configured. Otherwise an
/// Antigravity agent gets the configured one, unless that is empty, and any other agent none.
pub proof fn law_environment(
    config: ConfigView,
    agent: Seq<char>,
    rest: Seq<char>,
    session: Option<SessionView>,
    id: Seq<char>,
)
    ensures
        session matches Some(state) && state.environment_id == Some(id) ==> environment_of(
            config,
            agent,
            session,
        ) == Some(id),
        (session matches Some(state) ==> state.environment_id is None) && agent == "antigravity-"@
            + rest && config.default_environment.len() > 0 ==> environment_of(
            config,
            agent,
            session,
        ) == Some(config.default_environment),
        (session matches Some(state) ==> state.environment_id is None)
            && config.default_environment.len() == 0 ==> environment_of(config, agent, session)
            is None,
        (session matches Some(state) ==> state.environment_id is None) && (forall|tail: Seq<char>|
            agent != #[trigger] ("antigravity-"@ + tail)) ==> environment_of(config, agent, session)
            is None,
        needs_environment("antigravity-"@ + rest),
{
    law_prefix(agent, "antigravity-"@);
    law_prefix("antigravity-"@ + rest, "antigravity-"@);
}

/// An interaction is continued if and only if the session has one with a name.
pub proof fn law_previous_interaction(session: Option<SessionView>, state: SessionView)
    ensures
        state.interaction_id.len() > 0 ==> previous_of(Some(state)) == Some(state.interaction_id),
        state.interaction_id.len() == 0 ==> previous_of(Some(state)) is None,
        previous_of(None) is None,
{
}

/// The step in which the user says a text holds that text, whole, in one text part, and nothing
/// else.
pub proof fn law_user_input_holds_text(text: Seq<char>, key: Seq<char>)
    ensures
        user_input(text).get("type"@) == Some(JsonView::Str("user_input"@)),
        user_input(text).get("content"@) matches Some(JsonView::Array(parts)) && parts.len() == 1
            && {
            &&& parts[0].get("type"@) == Some(JsonView::Str("text"@))
            &&& parts[0].get("text"@) == Some(JsonView::Str(text))
            &&& key != "type"@ && key != "text"@ ==> parts[0].get(key) is None
        },
        key != "type"@ && key != "content"@ ==> user_input(text).get(key) is None,
{
    reveal_strlit("type");
    reveal_strlit("text");
    reveal_strlit("content");
    assert("type"@.len() == 4 && "type"@[1] == 'y');
    assert("text"@.len() == 4 && "text"@[1] == 'e');
    assert("content"@.len() == 7);
    let part = seq![("type"@, JsonView::Str("text"@)), ("text"@, JsonView::Str(text))];
    let step = seq![
        ("type"@, JsonView::Str("user_input"@)),
        ("content"@, JsonView::Array(seq![object_of(part)])),
    ];
    lemma_entries_map_at(part, 0);
    lemma_entries_map_at(part, 1);
    lemma_entries_map_at(step, 0);
    lemma_entries_map_at(step, 1);
    if key != "type"@ && key != "text"@ {
        lemma_entries_map_absent(part, key);
    }
    if key != "type"@ && key != "content"@ {
        lemma_entries_map_absent(step, key);
    }
}

/// What is posted for a chat request, member by member: it is addressed to the agent, with its
/// environment, or to the model; it continues the interaction of its session, if there is one;
/// it says whether to store; its only input is the text of the last message; and it has the
/// tools of the chat request. It has no other members.
pub proof fn law_posted_members(
    config: ConfigView,
    sessions: Map<Seq<u8>, SessionView>,
    model: Seq<char>,
    openai: JsonView,
    history: Seq<JsonView>,
    last: JsonView,
    key: Seq<char>,
)
    requires
        openai.get("messages"@) == Some(JsonView::Array(history.push(last))),
    ensures
        ({
            let session = session_of(sessions, model, openai);
            let body = request_body(config, sessions, model, openai);
            body.get(key) == if key == "agent"@ && is_agent(config, model) {
                Some(JsonView::Str(model))
            } else if key == "environment"@ && is_agent(config, model) && environment_of(
                config,
                model,
                session,
            ) is Some {
                Some(JsonView::Str(environment_of(config, model, session)->0))
            } else if key == "model"@ && !is_agent(config, model) {
                Some(JsonView::Str(model))
            } else if key == "previous_interaction_id"@ && previous_of(session) is Some {
                Some(JsonView::Str(previous_of(session)->0))
            } else if key == "store"@ {
                Some(JsonView::Bool(config.store))
            } else if key == "input"@ {
                Some(JsonView::Array(seq![user_input(message_text(last))]))
            } else if key == "tools"@ && openai.array_at("tools"@) is Some {
                Some(JsonView::Array(openai.array_at("tools"@)->0))
            } else {
                None
            }
        }),
{
    lemma_request_keys();
    assert(history.push(last).last() == last);
    let session = session_of(sessions, model, openai);
    let text = message_text(last);
    let tools = openai.array_at("tools"@);
    let head = addressee(config, model, session);
    let previous = text_member("previous_interaction_id"@, previous_of(session));
    let body = seq![
        ("store"@, JsonView::Bool(config.store)),
        ("input"@, JsonView::Array(seq![user_input(text)])),
    ];
    let tail = array_member("tools"@, tools);
    let all = head + previous + body + tail;
    let h = head.len() as int;
    let p = previous.len() as int;
    assert(request_body(config, sessions, model, openai) == object_of(all));
    assert(all[h + p] == body[0]);
    assert(all[h + p + 1] == body[1]);
    assert(all[0] == head[0]);
    lemma_entries_map_at(all, 0);
    lemma_entries_map_at(all, h + p);
    lemma_entries_map_at(all, h + p + 1);
    if is_agent(config, model) && environment_of(config, model, session) is Some {
        assert(all[1] == head[1]);
        lemma_entries_map_at(all, 1);
    }
    if previous_of(session) is Some {
        assert(all[h] == previous[0]);
        lemma_entries_map_at(all, h);
    }
    if tools is Some {
        assert(all[h + p + 2] == tail[0]);
        lemma_entries_map_at(all, h + p + 2);
    }
    if forall|j: int| 0 <= j < all.len() ==> (#[trigger] all[j]).0 != key {
        lemma_entries_map_absent(all, key);
    } else {
        let j = choose|j: int| 0 <= j < all.len() && (#[trigger] all[j]).0 == key;
        if j < h {
            assert(all[j] == head[j]);
        } else if j < h + p {
            assert(all[j] == previous[j - h]);
        } else if j < h + p + 2 {
            assert(all[j] == body[j - h - p]);
        } else {
            assert(all[j] == tail[j - h - p - 2]);
        }
    }
}

/// The host is asked to post the body to the configured endpoint as JSON, with the API key and
/// the callback that the executor request names, and nothing else.
pub proof fn law_host_call_members(
    config: ConfigView,
    sessions: Map<Seq<u8>, SessionView>,
    req: JsonView,
    model: Seq<char>,
    openai: JsonView,
    key: Seq<char>,
)
    ensures
        ({
            let call = request_call(config, sessions, req, model, openai);
            let body = request_body(config, sessions, model, openai);
            &&& call.get("method"@) == Some(JsonView::Str("POST"@))
            &&& call.get("url"@) == Some(JsonView::Str(config.endpoint))
            &&& call.get("body"@) == Some(JsonView::Str(base64_text(encode_utf8(json_text(body)))))
            &&& call.get("host_callback_id"@) == Some(JsonView::Str(callback_of(req)))
            &&& call.get("headers"@) matches Some(headers) && {
                &&& headers.get("x-goog-api-key"@) == Some(
                    JsonView::Array(seq![JsonView::Str(api_key_of(req))]),
                )
                &&& headers.get("content-type"@) == Some(
                    JsonView::Array(seq![JsonView::Str("application/json"@)]),
                )
                &&& key != "x-goog-api-key"@ && key != "content-type"@ ==> headers.get(key) is None
            }
            &&& key != "method"@ && key != "url"@ && key != "body"@ && key != "host_callback_id"@
                && key != "headers"@ ==> call.get(key) is None
        }),
{
    reveal_strlit("method");
    reveal_strlit("url");
    reveal_strlit("headers");
    reveal_strlit("body");
    reveal_strlit("host_callback_id");
    reveal_strlit("x-goog-api-key");
    reveal_strlit("content-type");
    assert("method"@.len() == 6);
    assert("url"@.len() == 3);
    assert("headers"@.len() == 7);
    assert("body"@.len() == 4);
    assert("host_callback_id"@.len() == 16);
    assert("x-goog-api-key"@.len() == 14);
    assert("content-type"@.len() == 12);
    let body = request_body(config, sessions, model, openai);
    let headers = seq![
        ("x-goog-api-key"@, text_array_of(api_key_of(req))),
        ("content-type"@, text_array_of("application/json"@)),
    ];
    let members = seq![
        ("method"@, JsonView::Str("POST"@)),
        ("url"@, JsonView::Str(config.endpoint)),
        ("headers"@, object_of(headers)),
        ("body"@, JsonView::Str(base64_text(encode_utf8(json_text(body))))),
        ("host_callback_id"@, JsonView::Str(callback_of(req))),
    ];
    lemma_entries_map_at(headers, 0);
    lemma_entries_map_at(headers, 1);
    lemma_entries_map_at(members, 0);
    lemma_entries_map_at(members, 1);
    lemma_entries_map_at(members, 2);
    lemma_entries_map_at(members, 3);
    lemma_entries_map_at(members, 4);
    if key != "x-goog-api-key"@ && key != "content-type"@ {
        lemma_entries_map_absent(headers, key);
    }
    if key != "method"@ && key != "url"@ && key != "body"@ && key != "host_callback_id"@ && key
        != "headers"@ {
        lemma_entries_map_absent(members, key);
    }
}

/// The API key is the one among the attributes that the host selected, and the callback is the
/// one that the executor request names; either is empty where it is missing.
pub proof fn law_key_and_callback(req: JsonView, attributes: JsonView, text: Seq<char>)
    ensures
        req.get("AuthAttributes"@) == Some(attributes) && attributes.get("api_key"@) == Some(
            JsonView::Str(text),
        ) ==> api_key_of(req) == text,
        req.get("AuthAttributes"@) == Some(attributes) && attributes.str_at("api_key"@) is None
            ==> api_key_of(req).len() == 0,
        req.get("AuthAttributes"@) is None ==> api_key_of(req).len() == 0,
        req.get("HostCallbackID"@) == Some(JsonView::Str(text)) ==> callback_of(req) == text,
        req.str_at("HostCallbackID"@) is None ==> callback_of(req).len() == 0,
{
}

/// The prompt is posted whole: for a request whose last message is the text `text`, the input is
/// that text, of the same length, whatever it holds.
pub proof fn law_prompt_posted_whole(
    config: ConfigView,
    sessions: Map<Seq<u8>, SessionView>,
    model: Seq<char>,
    openai: JsonView,
    history: Seq<JsonView>,
    last: JsonView,
    text: Seq<char>,
)
    requires
        openai.get("messages"@) == Some(JsonView::Array(history.push(last))),
        last.get("content"@) == Some(JsonView::Str(text)),
    ensures
        ({
            let body = request_body(config, sessions, model, openai);
            body.get("input"@) matches Some(JsonView::Array(input)) && input.len() == 1 && (
            input[0].get("content"@) matches Some(JsonView::Array(parts)) && parts.len() == 1
                && parts[0].get("text"@) == Some(JsonView::Str(text)))
        }),
{
    law_posted_members(config, sessions, model, openai, history, last, "input"@);
    law_user_input_holds_text(text, "text"@);
    lemma_request_keys();
}

} // verus!
