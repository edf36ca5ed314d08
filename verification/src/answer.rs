//! What follows the host's reply: the interaction in it is remembered as a session and shown
//! to the client as an OpenAI chat answer.
use vstd::prelude::*;
use vstd::string::*;
use vstd::utf8::*;

use crate::codec::{
    base64_bytes, base64_text, decode_base64, encode_base64, has_no_breaks, is_base64_char,
    is_plain, json_parse, json_text, lemma_plain_more, lemma_plain_object, lossy_text, parse_json,
    print_json, utf8_lossy,
};
use crate::content::{
    arguments_text, extract_model_output_text, extract_tool_calls, has_type, steps_of, steps_text,
    tool_call, tool_calls,
};
use crate::envelope::{escaped, lemma_escaped_plain, ok_envelope, ok_envelope_bytes};
use crate::executor::{
    array_of_one, bytes_view, joined, push_member, text_or, PendingCall, PendingView,
};
use crate::json::{
    array_views, entry_views, member, object_of, or_empty, text_json, Json, JsonView,
};
use crate::session::{
    assistant_message, bound, build_assistant_message, build_next_messages, compute_session_key,
    or_none, session_key, SessionMap, SessionState, SessionView,
};
use crate::text::{decimal, decimal_of, is_control, same_text};

verus! {

/// How the host answers a call.
pub enum HostReply {
    /// There is no host yet.
    NotInitialized,
    /// The host cannot be called.
    NoCallFunction,
    /// The host was called and returned a code and a body.
    Returned { rc: i32, body: Vec<u8> },
}

/// The body of a reply to `host.http.do`, where the call succeeded.
pub open spec fn reply_body(reply: HostReply) -> Result<Seq<u8>, Seq<char>> {
    match reply {
        HostReply::NotInitialized => Err("host api not initialized"@),
        HostReply::NoCallFunction => Err("host call function missing"@),
        HostReply::Returned { rc, body } => if rc != 0 {
            Err("host.http.do returned rc="@ + decimal_of(rc as int))
        } else {
            Ok(body@)
        },
    }
}

/// The message of a host error.
pub open spec fn host_error(env: JsonView) -> Seq<char> {
    let message = match env.get("error"@) {
        Some(error) => error.str_at("message"@),
        None => None,
    };
    match message {
        Some(text) => text,
        None => "host.http.do failed"@,
    }
}

/// The status of an HTTP result, cut to 32 bits.
pub open spec fn status_of(result: JsonView) -> i32 {
    result.int_at("status_code"@) as i32
}

/// The HTTP body in the host's envelope, where the upstream answered with status 200.
pub open spec fn upstream_body(env: JsonView) -> Result<Seq<u8>, Seq<char>> {
    if env.get("ok"@) != Some(JsonView::Bool(true)) {
        Err(host_error(env))
    } else {
        match env.get("result"@) {
            None => Err("missing host.http.do result"@),
            Some(result) => match result.str_at("body"@) {
                None => Err("missing host.http.do body"@),
                Some(text) => match base64_bytes(text) {
                    Err(e) => Err("decode host.http.do body base64: "@ + e),
                    Ok(bytes) => if status_of(result) != 200 {
                        Err(
                            "upstream returned status "@ + decimal_of(status_of(result) as int)
                                + ": "@ + utf8_lossy(bytes),
                        )
                    } else {
                        Ok(bytes)
                    },
                },
            },
        }
    }
}

/// Reads the HTTP body out of the host's envelope.
pub fn read_upstream_body(env: &Json) -> (r: Result<Vec<u8>, String>)
    ensures
        bytes_view(r) == upstream_body(env@),
{
    let ok: bool = match env.get("ok") {
        Some(Json::Bool(b)) => *b,
        _ => false,
    };
    if !ok {
        let message: Option<&str> = match env.get("error") {
            Some(error) => error.str_at("message"),
            None => None,
        };
        return match message {
            Some(text) => Err(text.to_owned()),
            None => Err("host.http.do failed".to_owned()),
        };
    }
    let result: &Json = match env.get("result") {
        Some(result) => result,
        None => {
            return Err("missing host.http.do result".to_owned());
        },
    };
    let status: i32 = #[verifier::truncate] (result.int_at("status_code") as i32);
    let text: &str = match result.str_at("body") {
        Some(text) => text,
        None => {
            return Err("missing host.http.do body".to_owned());
        },
    };
    match decode_base64(text) {
        Err(e) => Err(joined("decode host.http.do body base64: ", e.as_str())),
        Ok(bytes) => {
            if status != 200 {
                let mut message = String::new();
                message.append("upstream returned status ");
                message.append(decimal(status).as_str());
                message.append(": ");
                message.append(lossy_text(bytes.as_slice()).as_str());
                assert(message@ =~= "upstream returned status "@ + decimal_of(status as int)
                    + ": "@ + utf8_lossy(bytes@));
                Err(message)
            } else {
                Ok(bytes)
            }
        },
    }
}

/// The counts of tokens that an interaction took.
pub struct Usage {
    pub prompt_tokens: i64,
    pub completion_tokens: i64,
    pub total_tokens: i64,
}

/// A count in the usage of an interaction, 0 where there is none.
pub open spec fn usage_count(interaction: JsonView, key: Seq<char>) -> i64 {
    match interaction.get("usage"@) {
        Some(usage) => usage.int_at(key),
        None => 0,
    }
}

/// The usage of an interaction.
pub open spec fn usage_of(interaction: JsonView) -> Usage {
    Usage {
        prompt_tokens: usage_count(interaction, "total_input_tokens"@),
        completion_tokens: usage_count(interaction, "total_output_tokens"@),
        total_tokens: usage_count(interaction, "total_tokens"@),
    }
}

fn read_usage(interaction: &Json) -> (r: Usage)
    ensures
        r == usage_of(interaction@),
{
    match interaction.get("usage") {
        Some(usage) => Usage {
            prompt_tokens: usage.int_at("total_input_tokens"),
            completion_tokens: usage.int_at("total_output_tokens"),
            total_tokens: usage.int_at("total_tokens"),
        },
        None => Usage { prompt_tokens: 0, completion_tokens: 0, total_tokens: 0 },
    }
}

/// The only choice of an answer. `part` is what holds the assistant's turn: `message`, or
/// `delta` in a stream.
pub open spec fn choice_of(part: Seq<char>, turn: JsonView) -> JsonView {
    object_of(
        seq![
            ("index"@, JsonView::Int(0)),
            (part, turn),
            ("finish_reason"@, JsonView::Str("stop"@)),
        ],
    )
}

fn build_choice(part: &str, turn: Json) -> (r: Json)
    ensures
        r@ == choice_of(part@, turn@),
{
    let mut members: Vec<(String, Json)> = Vec::new();
    members.push(member("index", Json::Int(0)));
    members.push(member(part, turn));
    members.push(member("finish_reason", text_json("stop")));
    assert(entry_views(members@) =~= seq![
        ("index"@, JsonView::Int(0)),
        (part@, turn@),
        ("finish_reason"@, JsonView::Str("stop"@)),
    ]);
    Json::Object(members)
}

/// The members that an answer and a chunk of a stream share.
pub open spec fn answer_head(
    id: Seq<char>,
    object: Seq<char>,
    created: i64,
    model: Seq<char>,
    choice: JsonView,
) -> Seq<(Seq<char>, JsonView)> {
    seq![
        ("id"@, JsonView::Str(id)),
        ("object"@, JsonView::Str(object)),
        ("created"@, JsonView::Int(created)),
        ("model"@, JsonView::Str(model)),
        ("choices"@, JsonView::Array(seq![choice])),
    ]
}

fn build_answer_head(id: &str, object: &str, created: i64, model: &str, choice: Json) -> (r: Vec<
    (String, Json),
>)
    ensures
        entry_views(r@) == answer_head(id@, object@, created, model@, choice@),
{
    let mut members: Vec<(String, Json)> = Vec::new();
    members.push(member("id", text_json(id)));
    members.push(member("object", text_json(object)));
    members.push(member("created", Json::Int(created)));
    members.push(member("model", text_json(model)));
    members.push(member("choices", array_of_one(choice)));
    assert(entry_views(members@) =~= answer_head(id@, object@, created, model@, choice@));
    members
}

/// The OpenAI `chat.completion` object.
pub open spec fn chat_completion(
    id: Seq<char>,
    model: Seq<char>,
    text: Seq<char>,
    calls: Seq<JsonView>,
    usage: Usage,
    created: i64,
) -> JsonView {
    object_of(
        answer_head(
            id,
            "chat.completion"@,
            created,
            model,
            choice_of("message"@, assistant_message(text, calls)),
        ) + seq![
            (
                "usage"@,
                object_of(
                    seq![
                        ("prompt_tokens"@, JsonView::Int(usage.prompt_tokens)),
                        ("completion_tokens"@, JsonView::Int(usage.completion_tokens)),
                        ("total_tokens"@, JsonView::Int(usage.total_tokens)),
                    ],
                ),
            ),
        ],
    )
}

/// Whether bytes come through an envelope: their base64 text needs no escaping inside the
/// quotes of a JSON string, and is decoded to them again.
pub open spec fn comes_through(bytes: Seq<u8>) -> bool {
    &&& escaped(base64_text(bytes)) == base64_text(bytes)
    &&& base64_bytes(base64_text(bytes)) == Ok::<Seq<u8>, Seq<char>>(bytes)
}

fn encode_payload(bytes: &[u8]) -> (r: String)
    ensures
        r@ == base64_text(bytes@),
        comes_through(bytes@),
{
    let r: String = encode_base64(bytes);
    proof {
        assert forall|i: int| 0 <= i < r@.len() implies #[trigger] r@[i] != '"' && r@[i] != '\\'
            && !is_control(r@[i]) by {
            assert(is_base64_char(r@[i]));
        }
        lemma_escaped_plain(r@);
    }
    r
}

/// The envelope with an answer in one piece.
pub open spec fn completion_envelope(completion: JsonView) -> Seq<char> {
    ok_envelope(
        "{\"Payload\":\""@ + base64_text(encode_utf8(json_text(completion)))
            + "\",\"Headers\":{\"content-type\":[\"application/json\"]}}"@,
    )
}

/// Whether a client finds an answer in one piece in the envelope: its bytes come through, and
/// a plain document is read out of them.
pub open spec fn completion_arrives(completion: JsonView) -> bool {
    let bytes = encode_utf8(json_text(completion));
    &&& comes_through(bytes)
    &&& is_plain(completion, 127) ==> json_parse(bytes) == Ok::<JsonView, Seq<char>>(completion)
}

/// Answers in one piece.
pub fn build_executor_response(
    new_id: &str,
    model: &str,
    assistant_text: &str,
    tool_calls: &Vec<Json>,
    usage: Usage,
    created: i64,
) -> (r: Vec<u8>)
    ensures
        r@ == encode_utf8(
            completion_envelope(
                chat_completion(
                    new_id@,
                    model@,
                    assistant_text@,
                    array_views(tool_calls@),
                    usage,
                    created,
                ),
            ),
        ),
        completion_arrives(
            chat_completion(
                new_id@,
                model@,
                assistant_text@,
                array_views(tool_calls@),
                usage,
                created,
            ),
        ),
{
    let choice: Json = build_choice("message", build_assistant_message(assistant_text, tool_calls));
    let mut counts: Vec<(String, Json)> = Vec::new();
    counts.push(member("prompt_tokens", Json::Int(usage.prompt_tokens)));
    counts.push(member("completion_tokens", Json::Int(usage.completion_tokens)));
    counts.push(member("total_tokens", Json::Int(usage.total_tokens)));
    assert(entry_views(counts@) =~= seq![
        ("prompt_tokens"@, JsonView::Int(usage.prompt_tokens)),
        ("completion_tokens"@, JsonView::Int(usage.completion_tokens)),
        ("total_tokens"@, JsonView::Int(usage.total_tokens)),
    ]);
    let mut members: Vec<(String, Json)> = build_answer_head(
        new_id,
        "chat.completion",
        created,
        model,
        choice,
    );
    push_member(&mut members, "usage", Json::Object(counts));
    let completion: Json = Json::Object(members);
    let text: String = print_json(&completion);
    let payload: String = encode_payload(text.as_str().as_bytes());
    let mut result = String::new();
    result.append("{\"Payload\":\"");
    result.append(payload.as_str());
    result.append("\",\"Headers\":{\"content-type\":[\"application/json\"]}}");
    assert(result@ =~= "{\"Payload\":\""@ + payload@
        + "\",\"Headers\":{\"content-type\":[\"application/json\"]}}"@);
    ok_envelope_bytes(result.as_str())
}

/// The OpenAI `chat.completion.chunk` object.
pub open spec fn chat_chunk(
    id: Seq<char>,
    model: Seq<char>,
    text: Seq<char>,
    calls: Seq<JsonView>,
    created: i64,
) -> JsonView {
    object_of(
        answer_head(
            id,
            "chat.completion.chunk"@,
            created,
            model,
            choice_of("delta"@, assistant_message(text, calls)),
        ),
    )
}

/// A stream of server-sent events with one chunk and the end mark.
pub open spec fn event_stream(chunk: JsonView) -> Seq<char> {
    "data: "@ + json_text(chunk) + "\n\ndata: [DONE]\n\n"@
}

/// The envelope with an answer as a stream.
pub open spec fn stream_envelope(chunk: JsonView) -> Seq<char> {
    ok_envelope(
        "{\"headers\":{\"content-type\":[\"text/event-stream\"]},\"chunks\":[{\"Payload\":\""@
            + base64_text(encode_utf8(event_stream(chunk))) + "\"}]}"@,
    )
}

/// Whether a client finds a stream in the envelope: its bytes come through, the text of its
/// only chunk stands on a single line, and a plain document is read out of it.
pub open spec fn stream_arrives(chunk: JsonView) -> bool {
    &&& comes_through(encode_utf8(event_stream(chunk)))
    &&& has_no_breaks(json_text(chunk))
    &&& is_plain(chunk, 127) ==> json_parse(encode_utf8(json_text(chunk))) == Ok::<
        JsonView,
        Seq<char>,
    >(chunk)
}

/// Answers as a stream: a single chunk and the end mark.
pub fn build_stream_executor_response(
    new_id: &str,
    model: &str,
    assistant_text: &str,
    tool_calls: &Vec<Json>,
    created: i64,
) -> (r: Vec<u8>)
    ensures
        r@ == encode_utf8(
            stream_envelope(
                chat_chunk(new_id@, model@, assistant_text@, array_views(tool_calls@), created),
            ),
        ),
        stream_arrives(
            chat_chunk(new_id@, model@, assistant_text@, array_views(tool_calls@), created),
        ),
{
    let choice: Json = build_choice("delta", build_assistant_message(assistant_text, tool_calls));
    let chunk: Json = Json::Object(
        build_answer_head(new_id, "chat.completion.chunk", created, model, choice),
    );
    let mut events = String::new();
    events.append("data: ");
    events.append(print_json(&chunk).as_str());
    events.append("\n\ndata: [DONE]\n\n");
    assert(events@ =~= event_stream(chunk@));
    let payload: String = encode_payload(events.as_str().as_bytes());
    let mut result = String::new();
    result.append(
        "{\"headers\":{\"content-type\":[\"text/event-stream\"]},\"chunks\":[{\"Payload\":\"",
    );
    result.append(payload.as_str());
    result.append("\"}]}");
    assert(result@
        =~= "{\"headers\":{\"content-type\":[\"text/event-stream\"]},\"chunks\":[{\"Payload\":\""@
        + payload@ + "\"}]}"@);
    ok_envelope_bytes(result.as_str())
}

/// What a finished turn leaves behind: the session, its key, and the answer.
pub struct TurnView {
    pub key: Seq<u8>,
    pub session: SessionView,
    pub response: Seq<u8>,
}

/// The message that an interaction answers with.
pub open spec fn reply_message(interaction: JsonView) -> JsonView {
    let steps = steps_of(interaction);
    assistant_message(steps_text(steps), tool_calls(steps))
}

/// The key under which the next turn of a conversation finds its session: that of the
/// messages of this turn and the reply to them.
pub open spec fn next_key(pending: PendingView, interaction: JsonView) -> Seq<u8> {
    session_key(
        pending.model,
        or_none(pending.request.array_at("messages"@)).push(reply_message(interaction)),
        pending.request,
    )
}

/// Whether an interaction is still going on.
pub open spec fn is_unfinished(status: Seq<char>) -> bool {
    status == "in_progress"@ || status == "requires_action"@
}

/// The answer to a turn, in one piece.
pub open spec fn turn_completion(
    pending: PendingView,
    interaction: JsonView,
    created: i64,
) -> JsonView {
    let steps = steps_of(interaction);
    chat_completion(
        or_empty(interaction.str_at("id"@)),
        pending.model,
        steps_text(steps),
        tool_calls(steps),
        usage_of(interaction),
        created,
    )
}

/// The answer to a turn, as the chunk of a stream.
pub open spec fn turn_chunk(
    pending: PendingView,
    interaction: JsonView,
    created: i64,
) -> JsonView {
    let steps = steps_of(interaction);
    chat_chunk(
        or_empty(interaction.str_at("id"@)),
        pending.model,
        steps_text(steps),
        tool_calls(steps),
        created,
    )
}

/// The envelope with the answer to a turn.
pub open spec fn turn_response(
    pending: PendingView,
    interaction: JsonView,
    created: i64,
) -> Seq<u8> {
    if pending.stream {
        encode_utf8(stream_envelope(turn_chunk(pending, interaction, created)))
    } else {
        encode_utf8(completion_envelope(turn_completion(pending, interaction, created)))
    }
}

/// What reaches the client of a turn: the bytes of the answer come through the envelope, and
/// the answer is read out of them, or out of the single line of the chunk in them.
pub open spec fn reaches_client(
    pending: PendingView,
    interaction: JsonView,
    created: i64,
) -> bool {
    if pending.stream {
        let chunk = turn_chunk(pending, interaction, created);
        &&& comes_through(encode_utf8(event_stream(chunk)))
        &&& has_no_breaks(json_text(chunk))
        &&& json_parse(encode_utf8(json_text(chunk))) == Ok::<JsonView, Seq<char>>(chunk)
    } else {
        let completion = turn_completion(pending, interaction, created);
        &&& comes_through(encode_utf8(json_text(completion)))
        &&& json_parse(encode_utf8(json_text(completion))) == Ok::<JsonView, Seq<char>>(
            completion,
        )
    }
}

/// Tool calls are plain documents.
proof fn lemma_plain_tool_calls(steps: Seq<JsonView>)
    ensures
        is_plain(JsonView::Array(tool_calls(steps)), 3),
    decreases steps.len(),
{
    if steps.len() > 0 {
        let rest = steps.drop_last();
        let step = steps.last();
        lemma_plain_tool_calls(rest);
        if has_type(step, "function_call"@) {
            let function = seq![
                ("name"@, JsonView::Str(or_empty(step.str_at("name"@)))),
                ("arguments"@, JsonView::Str(arguments_text(step))),
            ];
            lemma_plain_object(function, 0);
            let members = seq![
                ("id"@, JsonView::Str(or_empty(step.str_at("id"@)))),
                ("type"@, JsonView::Str("function"@)),
                ("function"@, object_of(function)),
            ];
            lemma_plain_object(members, 1);
            let before = JsonView::Array(tool_calls(rest));
            let after = JsonView::Array(tool_calls(steps));
            assert(after->Array_0 == before->Array_0.push(tool_call(step)));
            assert forall|i: int| 0 <= i < after->Array_0.len() implies is_plain(
                #[trigger] after->Array_0[i],
                2,
            ) by {
                if i < before->Array_0.len() {
                    assert(is_plain(before->Array_0[i], 2));
                }
            }
        }
    }
}

/// The choice of an answer is a plain document.
proof fn lemma_plain_choice(part: Seq<char>, text: Seq<char>, steps: Seq<JsonView>)
    ensures
        is_plain(choice_of(part, assistant_message(text, tool_calls(steps))), 5),
{
    lemma_plain_tool_calls(steps);
    let calls = tool_calls(steps);
    let message = seq![
        ("role"@, JsonView::Str("assistant"@)),
        ("content"@, JsonView::Str(text)),
    ] + if calls.len() == 0 {
        Seq::empty()
    } else {
        seq![("tool_calls"@, JsonView::Array(calls))]
    };
    lemma_plain_object(message, 3);
    let members = seq![
        ("index"@, JsonView::Int(0)),
        (part, assistant_message(text, calls)),
        ("finish_reason"@, JsonView::Str("stop"@)),
    ];
    lemma_plain_object(members, 4);
}

/// The members that all answers share are plain documents.
proof fn lemma_plain_head(
    id: Seq<char>,
    object: Seq<char>,
    created: i64,
    model: Seq<char>,
    choice: JsonView,
)
    requires
        is_plain(choice, 5),
    ensures
        ({
            let head = answer_head(id, object, created, model, choice);
            forall|i: int| 0 <= i < head.len() ==> is_plain((#[trigger] head[i]).1, 6)
        }),
{
    let choices = JsonView::Array(seq![choice]);
    assert forall|i: int| 0 <= i < choices->Array_0.len() implies is_plain(
        #[trigger] choices->Array_0[i],
        5,
    ) by {
        assert(choices->Array_0[i] == choice);
    }
    assert(is_plain(choices, 6));
}

/// The answer to a turn is a plain document.
proof fn lemma_plain_answer(pending: PendingView, interaction: JsonView, created: i64)
    ensures
        is_plain(turn_completion(pending, interaction, created), 127),
        is_plain(turn_chunk(pending, interaction, created), 127),
{
    let steps = steps_of(interaction);
    let text = steps_text(steps);
    let id = or_empty(interaction.str_at("id"@));
    let usage = usage_of(interaction);
    let message = choice_of("message"@, assistant_message(text, tool_calls(steps)));
    let delta = choice_of("delta"@, assistant_message(text, tool_calls(steps)));
    lemma_plain_choice("message"@, text, steps);
    lemma_plain_choice("delta"@, text, steps);
    lemma_plain_head(id, "chat.completion"@, created, pending.model, message);
    lemma_plain_head(id, "chat.completion.chunk"@, created, pending.model, delta);
    let counts = seq![
        ("prompt_tokens"@, JsonView::Int(usage.prompt_tokens)),
        ("completion_tokens"@, JsonView::Int(usage.completion_tokens)),
        ("total_tokens"@, JsonView::Int(usage.total_tokens)),
    ];
    lemma_plain_object(counts, 0);
    lemma_plain_more(object_of(counts), 1, 6);
    let head = answer_head(id, "chat.completion"@, created, pending.model, message);
    let completion = head + seq![("usage"@, object_of(counts))];
    assert forall|i: int| 0 <= i < completion.len() implies is_plain(
        (#[trigger] completion[i]).1,
        6,
    ) by {
        if i < head.len() {
            assert(completion[i] == head[i]);
        }
    }
    lemma_plain_object(completion, 6);
    lemma_plain_more(object_of(completion), 7, 127);
    let chunk = answer_head(id, "chat.completion.chunk"@, created, pending.model, delta);
    lemma_plain_object(chunk, 6);
    lemma_plain_more(object_of(chunk), 7, 127);
}

/// How an interaction ends a turn.
pub open spec fn finished_turn(
    pending: PendingView,
    interaction: JsonView,
    created: i64,
) -> Result<TurnView, Seq<char>> {
    let status = or_empty(interaction.str_at("status"@));
    match interaction.str_at("id"@) {
        None => Err("missing interaction.id"@),
        Some(id) => if is_unfinished(status) {
            Err(
                "agent returned non-terminal status "@ + status
                    + "; background polling is not supported in v0.1"@,
            )
        } else {
            Ok(
                TurnView {
                    key: next_key(pending, interaction),
                    session: SessionView {
                        interaction_id: id,
                        environment_id: interaction.str_at("environment_id"@),
                    },
                    response: turn_response(pending, interaction, created),
                },
            )
        },
    }
}

/// What a finished turn answers and does to the sessions: a turn that fails leaves them as
/// they are, one that succeeds binds its session, unless an earlier turn has bound its key.
pub open spec fn settles(
    turn: Result<TurnView, Seq<char>>,
    r: Result<Vec<u8>, String>,
    before: Map<Seq<u8>, SessionView>,
    after: Map<Seq<u8>, SessionView>,
) -> bool {
    match turn {
        Ok(done) => {
            &&& r matches Ok(bytes) && bytes@ == done.response
            &&& after == bound(before, done.key, done.session)
        },
        Err(message) => {
            &&& r matches Err(e) && e@ == message
            &&& after == before
        },
    }
}

/// Ends a turn with the interaction that came back.
pub fn finish_turn(
    sessions: &mut SessionMap,
    pending: &PendingCall,
    interaction: &Json,
    created: i64,
) -> (r: Result<Vec<u8>, String>)
    ensures
        settles(
            finished_turn(pending@, interaction@, created),
            r,
            old(sessions)@,
            final(sessions)@,
        ),
        r is Ok ==> reaches_client(pending@, interaction@, created),
{
    let id: &str = match interaction.str_at("id") {
        Some(id) => id,
        None => {
            return Err("missing interaction.id".to_owned());
        },
    };
    let status: &str = text_or(interaction.str_at("status"));
    if same_text(status, "in_progress") || same_text(status, "requires_action") {
        let mut message = String::new();
        message.append("agent returned non-terminal status ");
        message.append(status);
        message.append("; background polling is not supported in v0.1");
        assert(message@ =~= "agent returned non-terminal status "@ + status@
            + "; background polling is not supported in v0.1"@);
        return Err(message);
    }
    let text: String = extract_model_output_text(interaction);
    let calls: Vec<Json> = extract_tool_calls(interaction);
    let next_messages: Vec<Json> = match pending.request.array_at("messages") {
        Some(messages) => build_next_messages(messages.as_slice(), text.as_str(), &calls),
        None => {
            let none: Vec<Json> = Vec::new();
            assert(array_views(none@) =~= Seq::empty());
            build_next_messages(none.as_slice(), text.as_str(), &calls)
        },
    };
    let key: [u8; 32] = compute_session_key(
        pending.model.as_str(),
        next_messages.as_slice(),
        &pending.request,
    );
    let environment_id: Option<String> = match interaction.str_at("environment_id") {
        Some(environment) => Some(environment.to_owned()),
        None => None,
    };
    sessions.insert(key, SessionState { interaction_id: id.to_owned(), environment_id });
    proof {
        lemma_plain_answer(pending@, interaction@, created);
    }
    if pending.stream {
        Ok(
            build_stream_executor_response(
                id,
                pending.model.as_str(),
                text.as_str(),
                &calls,
                created,
            ),
        )
    } else {
        Ok(
            build_executor_response(
                id,
                pending.model.as_str(),
                text.as_str(),
                &calls,
                read_usage(interaction),
                created,
            ),
        )
    }
}

/// The interaction in the host's reply.
pub open spec fn interaction_of(reply: HostReply) -> Result<JsonView, Seq<char>> {
    match reply_body(reply) {
        Err(e) => Err(e),
        Ok(body) => match json_parse(body) {
            Err(e) => Err("parse host.http.do envelope: "@ + e),
            Ok(env) => match upstream_body(env) {
                Err(e) => Err(e),
                Ok(bytes) => match json_parse(bytes) {
                    Err(e) => Err("parse interaction response: "@ + e),
                    Ok(interaction) => Ok(interaction),
                },
            },
        },
    }
}

/// How the host's reply ends a turn.
pub open spec fn settled_turn(pending: PendingView, reply: HostReply, created: i64) -> Result<
    TurnView,
    Seq<char>,
> {
    match interaction_of(reply) {
        Err(e) => Err(e),
        Ok(interaction) => finished_turn(pending, interaction, created),
    }
}

/// Goes on with a chat request once the host has replied. `created` is the time of the
/// answer, in seconds since 1970.
pub fn finish_execute(
    sessions: &mut SessionMap,
    pending: &PendingCall,
    reply: &HostReply,
    created: i64,
) -> (r: Result<Vec<u8>, String>)
    ensures
        settles(
            settled_turn(pending@, *reply, created),
            r,
            old(sessions)@,
            final(sessions)@,
        ),
        r is Ok ==> (interaction_of(*reply) matches Ok(interaction) && reaches_client(
            pending@,
            interaction,
            created,
        )),
{
    let body: &Vec<u8> = match reply {
        HostReply::NotInitialized => {
            return Err("host api not initialized".to_owned());
        },
        HostReply::NoCallFunction => {
            return Err("host call function missing".to_owned());
        },
        HostReply::Returned { rc, body } => {
            if *rc != 0 {
                return Err(joined("host.http.do returned rc=", decimal(*rc).as_str()));
            }
            body
        },
    };
    let env: Json = match parse_json(body.as_slice()) {
        Ok(env) => env,
        Err(e) => {
            return Err(joined("parse host.http.do envelope: ", e.as_str()));
        },
    };
    let bytes: Vec<u8> = match read_upstream_body(&env) {
        Ok(bytes) => bytes,
        Err(e) => {
            return Err(e);
        },
    };
    match parse_json(bytes.as_slice()) {
        Ok(interaction) => finish_turn(sessions, pending, &interaction, created),
        Err(e) => Err(joined("parse interaction response: ", e.as_str())),
    }
}

} // verus!
