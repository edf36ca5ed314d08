//! The executor: an OpenAI chat request becomes a call of the Interactions API. The call itself
//! is the host's: the work before it ends in a `PendingCall`, the work after it, which is that
//! of `answer`, starts from the host's reply.
use vstd::prelude::*;
use vstd::slice::slice_subrange;
use vstd::string::*;
use vstd::utf8::*;

use crate::codec::{
    base64_bytes, base64_text, decode_base64, encode_base64, is_plain, json_parse, json_text,
    lemma_plain_more, lemma_plain_object, parse_json, print_json,
};
use crate::config::{texts_of, ConfigView, PluginConfig};
use crate::content::{extract_text_content, message_text};
use crate::json::{
    array_views, entry_views, member, object_of, opt_text, or_empty, text_json, Json, JsonView,
};
use crate::session::{
    compute_session_key, or_none, session_at, session_key, SessionMap, SessionState, SessionView,
};
use crate::text::{has_prefix, same_text, starts_with};

verus! {

/// The host method that makes an HTTP call.
pub const HOST_METHOD: &'static str = "host.http.do";

/// A call that the host has to make, and what is needed to go on once it has answered.
pub struct PendingCall {
    /// The payload of the call of `HOST_METHOD`.
    pub payload: Vec<u8>,
    /// The requested model.
    pub model: String,
    /// The OpenAI request.
    pub request: Json,
    /// Whether the answer is to be streamed.
    pub stream: bool,
}

/// The mathematical model of a pending call.
pub struct PendingView {
    pub payload: Seq<u8>,
    pub model: Seq<char>,
    pub request: JsonView,
    pub stream: bool,
}

impl View for PendingCall {
    type V = PendingView;

    open spec fn view(&self) -> PendingView {
        PendingView {
            payload: self.payload@,
            model: self.model@,
            request: self.request@,
            stream: self.stream,
        }
    }
}

/// The model of a pending call or an error.
pub open spec fn pending_view(r: Result<PendingCall, String>) -> Result<PendingView, Seq<char>> {
    match r {
        Ok(call) => Ok(call@),
        Err(e) => Err(e@),
    }
}

/// The model of bytes or an error.
pub open spec fn bytes_view(r: Result<Vec<u8>, String>) -> Result<Seq<u8>, Seq<char>> {
    match r {
        Ok(bytes) => Ok(bytes@),
        Err(e) => Err(e@),
    }
}

/// An array of one text.
pub open spec fn text_array_of(s: Seq<char>) -> JsonView {
    JsonView::Array(seq![JsonView::Str(s)])
}

pub(crate) fn array_of_one(item: Json) -> (r: Json)
    ensures
        r@ == JsonView::Array(seq![item@]),
{
    let mut items: Vec<Json> = Vec::new();
    items.push(item);
    assert(array_views(items@) =~= seq![item@]);
    Json::Array(items)
}

/// Whether a model is one of the configured agents.
pub open spec fn is_agent(config: ConfigView, model: Seq<char>) -> bool {
    config.agents.contains(model)
}

/// Whether a model is one of the configured agents, by its name.
pub fn agent_named(config: &PluginConfig, model: &str) -> (r: bool)
    ensures
        r == is_agent(config@, model@),
{
    let ghost names = texts_of(config.agents@);
    let mut i: usize = 0;
    while i < config.agents.len()
        invariant
            i <= config.agents@.len(),
            names == texts_of(config.agents@),
            forall|k: int| 0 <= k < i ==> names[k] != model@,
        decreases config.agents@.len() - i,
    {
        if same_text(config.agents[i].as_str(), model) {
            assert(names[i as int] == model@);
            return true;
        }
        i = i + 1;
    }
    false
}

/// Whether an agent needs an environment: the Antigravity agents do.
pub open spec fn needs_environment(agent: Seq<char>) -> bool {
    has_prefix(agent, "antigravity-"@)
}

/// The environment for an agent: the one that the session captured; else, for an agent that
/// needs one, the configured one, where one is configured; else none.
pub open spec fn environment_of(
    config: ConfigView,
    agent: Seq<char>,
    session: Option<SessionView>,
) -> Option<Seq<char>> {
    match session {
        Some(SessionView { environment_id: Some(id), .. }) => Some(id),
        _ => if needs_environment(agent) && config.default_environment.len() > 0 {
            Some(config.default_environment)
        } else {
            None
        },
    }
}

/// The interaction that a session continues, where it has a name.
pub open spec fn previous_of(session: Option<SessionView>) -> Option<Seq<char>> {
    match session {
        Some(state) => if state.interaction_id.len() > 0 {
            Some(state.interaction_id)
        } else {
            None
        },
        None => None,
    }
}

/// A member that is there if its text is.
pub open spec fn text_member(key: Seq<char>, text: Option<Seq<char>>) -> Seq<
    (Seq<char>, JsonView),
> {
    match text {
        Some(s) => seq![(key, JsonView::Str(s))],
        None => Seq::empty(),
    }
}

/// A member that is there if its array is.
pub open spec fn array_member(key: Seq<char>, items: Option<Seq<JsonView>>) -> Seq<
    (Seq<char>, JsonView),
> {
    match items {
        Some(list) => seq![(key, JsonView::Array(list))],
        None => Seq::empty(),
    }
}

/// The step in which the user says a text.
pub open spec fn user_input(text: Seq<char>) -> JsonView {
    object_of(
        seq![
            ("type"@, JsonView::Str("user_input"@)),
            (
                "content"@,
                JsonView::Array(
                    seq![
                        object_of(
                            seq![
                                ("type"@, JsonView::Str("text"@)),
                                ("text"@, JsonView::Str(text)),
                            ],
                        ),
                    ],
                ),
            ),
        ],
    )
}

/// What names the addressee: an agent with its environment, or a model.
pub open spec fn addressee(
    config: ConfigView,
    model: Seq<char>,
    session: Option<SessionView>,
) -> Seq<(Seq<char>, JsonView)> {
    if is_agent(config, model) {
        seq![("agent"@, JsonView::Str(model))] + text_member(
            "environment"@,
            environment_of(config, model, session),
        )
    } else {
        seq![("model"@, JsonView::Str(model))]
    }
}

/// The request to the Interactions API: the addressee, the interaction that it continues, the
/// latest turn alone as input, and the tools of the client.
pub open spec fn interactions_request(
    config: ConfigView,
    model: Seq<char>,
    session: Option<SessionView>,
    text: Seq<char>,
    tools: Option<Seq<JsonView>>,
) -> JsonView {
    object_of(
        addressee(config, model, session) + text_member(
            "previous_interaction_id"@,
            previous_of(session),
        ) + seq![
            ("store"@, JsonView::Bool(config.store)),
            ("input"@, JsonView::Array(seq![user_input(text)])),
        ] + array_member("tools"@, tools),
    )
}

fn user_input_step(text: &str) -> (r: Json)
    ensures
        r@ == user_input(text@),
{
    let mut part: Vec<(String, Json)> = Vec::new();
    part.push(member("type", text_json("text")));
    part.push(member("text", text_json(text)));
    assert(entry_views(part@) =~= seq![
        ("type"@, JsonView::Str("text"@)),
        ("text"@, JsonView::Str(text@)),
    ]);
    let mut step: Vec<(String, Json)> = Vec::new();
    step.push(member("type", text_json("user_input")));
    step.push(member("content", array_of_one(Json::Object(part))));
    assert(entry_views(step@) =~= seq![
        ("type"@, JsonView::Str("user_input"@)),
        ("content"@, JsonView::Array(seq![object_of(entry_views(part@))])),
    ]);
    Json::Object(step)
}

/// The model of a session that may be missing.
pub open spec fn opt_session(session: Option<&SessionState>) -> Option<SessionView> {
    match session {
        Some(state) => Some(state@),
        None => None,
    }
}

pub(crate) fn push_member(members: &mut Vec<(String, Json)>, key: &str, value: Json)
    ensures
        entry_views(final(members)@) == entry_views(old(members)@) + seq![(key@, value@)],
{
    let ghost before = members@;
    members.push(member(key, value));
    assert(entry_views(members@) =~= entry_views(before) + seq![(key@, value@)]);
}

/// Builds the request to the Interactions API.
pub fn build_interactions_request(
    config: &PluginConfig,
    model: &str,
    session: Option<&SessionState>,
    text: &str,
    tools: Option<&Vec<Json>>,
) -> (r: Json)
    ensures
        r@ == interactions_request(
            config@,
            model@,
            opt_session(session),
            text@,
            match tools {
                Some(list) => Some(array_views(list@)),
                None => None,
            },
        ),
{
    let mut members: Vec<(String, Json)> = Vec::new();
    assert(entry_views(members@) =~= Seq::empty());
    if agent_named(config, model) {
        push_member(&mut members, "agent", text_json(model));
        match session {
            Some(SessionState { environment_id: Some(id), .. }) => {
                push_member(&mut members, "environment", text_json(id.as_str()));
            },
            _ => {
                if starts_with(model, "antigravity-")
                    && !config.default_environment.as_str().is_empty() {
                    push_member(
                        &mut members,
                        "environment",
                        text_json(config.default_environment.as_str()),
                    );
                }
            },
        }
    } else {
        push_member(&mut members, "model", text_json(model));
    }
    assert(entry_views(members@) =~= addressee(config@, model@, opt_session(session)));
    if let Some(state) = session {
        if !state.interaction_id.as_str().is_empty() {
            push_member(
                &mut members,
                "previous_interaction_id",
                text_json(state.interaction_id.as_str()),
            );
        }
    }
    push_member(&mut members, "store", Json::Bool(config.store));
    push_member(&mut members, "input", array_of_one(user_input_step(text)));
    if let Some(list) = tools {
        let copy: Vec<Json> = list.clone();
        assert(array_views(copy@) =~= array_views(list@));
        push_member(&mut members, "tools", Json::Array(copy));
    }
    assert(entry_views(members@) =~= addressee(config@, model@, opt_session(session))
        + text_member("previous_interaction_id"@, previous_of(opt_session(session))) + seq![
        ("store"@, JsonView::Bool(config@.store)),
        ("input"@, JsonView::Array(seq![user_input(text@)])),
    ] + array_member(
        "tools"@,
        match tools {
            Some(list) => Some(array_views(list@)),
            None => None,
        },
    ));
    Json::Object(members)
}

/// The `host.http.do` call that posts a request to the Interactions API.
pub open spec fn host_request(
    endpoint: Seq<char>,
    api_key: Seq<char>,
    body: JsonView,
    host_callback_id: Seq<char>,
) -> JsonView {
    object_of(
        seq![
            ("method"@, JsonView::Str("POST"@)),
            ("url"@, JsonView::Str(endpoint)),
            (
                "headers"@,
                object_of(
                    seq![
                        ("x-goog-api-key"@, text_array_of(api_key)),
                        ("content-type"@, text_array_of("application/json"@)),
                    ],
                ),
            ),
            ("body"@, JsonView::Str(base64_text(encode_utf8(json_text(body))))),
            ("host_callback_id"@, JsonView::Str(host_callback_id)),
        ],
    )
}

/// A host call is a plain document.
proof fn lemma_plain_host_request(
    endpoint: Seq<char>,
    api_key: Seq<char>,
    body: JsonView,
    host_callback_id: Seq<char>,
)
    ensures
        is_plain(host_request(endpoint, api_key, body, host_callback_id), 127),
{
    let headers = seq![
        ("x-goog-api-key"@, text_array_of(api_key)),
        ("content-type"@, text_array_of("application/json"@)),
    ];
    assert forall|i: int| 0 <= i < headers.len() implies is_plain(
        (#[trigger] headers[i]).1,
        1,
    ) by {
        assert(headers[i].1 is Array);
        assert forall|k: int| 0 <= k < headers[i].1->Array_0.len() implies is_plain(
            #[trigger] headers[i].1->Array_0[k],
            0,
        ) by {
            assert(headers[i].1->Array_0[k] is Str);
        }
    }
    lemma_plain_object(headers, 1);
    let members = seq![
        ("method"@, JsonView::Str("POST"@)),
        ("url"@, JsonView::Str(endpoint)),
        ("headers"@, object_of(headers)),
        ("body"@, JsonView::Str(base64_text(encode_utf8(json_text(body))))),
        ("host_callback_id"@, JsonView::Str(host_callback_id)),
    ];
    assert forall|i: int| 0 <= i < members.len() implies is_plain(
        (#[trigger] members[i]).1,
        2,
    ) by {
        assert(i == 2 || members[i].1 is Str);
    }
    lemma_plain_object(members, 2);
    lemma_plain_more(object_of(members), 3, 127);
}

/// What reaches the host: it reads the call out of the payload, out of the call the bytes of
/// the request, and out of those the request itself where that is a plain document.
pub open spec fn reaches_host(payload: Seq<u8>, call: JsonView, body: JsonView) -> bool {
    let bytes = encode_utf8(json_text(body));
    &&& json_parse(payload) == Ok::<JsonView, Seq<char>>(call)
    &&& base64_bytes(base64_text(bytes)) == Ok::<Seq<u8>, Seq<char>>(bytes)
    &&& is_plain(body, 127) ==> json_parse(bytes) == Ok::<JsonView, Seq<char>>(body)
}

/// Builds the payload of the host call.
fn build_host_payload(
    endpoint: &str,
    api_key: &str,
    body: &Json,
    host_callback_id: &str,
) -> (r: Vec<u8>)
    ensures
        r@ == encode_utf8(
            json_text(host_request(endpoint@, api_key@, body@, host_callback_id@)),
        ),
        reaches_host(r@, host_request(endpoint@, api_key@, body@, host_callback_id@), body@),
{
    let body_text: String = print_json(body);
    let body_b64: String = encode_base64(body_text.as_str().as_bytes());
    let mut headers: Vec<(String, Json)> = Vec::new();
    headers.push(member("x-goog-api-key", array_of_one(text_json(api_key))));
    headers.push(member("content-type", array_of_one(text_json("application/json"))));
    assert(entry_views(headers@) =~= seq![
        ("x-goog-api-key"@, text_array_of(api_key@)),
        ("content-type"@, text_array_of("application/json"@)),
    ]);
    let mut members: Vec<(String, Json)> = Vec::new();
    members.push(member("method", text_json("POST")));
    members.push(member("url", text_json(endpoint)));
    members.push(member("headers", Json::Object(headers)));
    members.push(member("body", Json::Str(body_b64)));
    members.push(member("host_callback_id", text_json(host_callback_id)));
    assert(entry_views(members@) =~= seq![
        ("method"@, JsonView::Str("POST"@)),
        ("url"@, JsonView::Str(endpoint@)),
        ("headers"@, object_of(entry_views(headers@))),
        ("body"@, JsonView::Str(base64_text(encode_utf8(json_text(body@))))),
        ("host_callback_id"@, JsonView::Str(host_callback_id@)),
    ]);
    proof {
        lemma_plain_host_request(endpoint@, api_key@, body@, host_callback_id@);
    }
    print_json(&Json::Object(members)).as_str().as_bytes_vec()
}

/// The API key that the host selected for a request.
pub open spec fn api_key_of(req: JsonView) -> Seq<char> {
    match req.get("AuthAttributes"@) {
        Some(attributes) => or_empty(attributes.str_at("api_key"@)),
        None => Seq::empty(),
    }
}

/// The host callback of a request.
pub open spec fn callback_of(req: JsonView) -> Seq<char> {
    or_empty(req.str_at("HostCallbackID"@))
}

pub(crate) fn text_or<'a>(text: Option<&'a str>) -> (r: &'a str)
    ensures
        r@ == or_empty(opt_text(text)),
{
    match text {
        Some(s) => s,
        None => {
            proof {
                reveal_strlit("");
                assert(""@ =~= Seq::empty());
            }
            ""
        },
    }
}

/// The session that a chat request continues: that of its model and of its messages but the
/// last one.
pub open spec fn session_of(
    sessions: Map<Seq<u8>, SessionView>,
    model: Seq<char>,
    openai: JsonView,
) -> Option<SessionView> {
    session_at(
        sessions,
        session_key(model, or_none(openai.array_at("messages"@)).drop_last(), openai),
    )
}

/// The request to the Interactions API that a chat request becomes.
pub open spec fn request_body(
    config: ConfigView,
    sessions: Map<Seq<u8>, SessionView>,
    model: Seq<char>,
    openai: JsonView,
) -> JsonView {
    interactions_request(
        config,
        model,
        session_of(sessions, model, openai),
        message_text(or_none(openai.array_at("messages"@)).last()),
        openai.array_at("tools"@),
    )
}

/// The host call that a chat request becomes.
pub open spec fn request_call(
    config: ConfigView,
    sessions: Map<Seq<u8>, SessionView>,
    req: JsonView,
    model: Seq<char>,
    openai: JsonView,
) -> JsonView {
    host_request(
        config.endpoint,
        api_key_of(req),
        request_body(config, sessions, model, openai),
        callback_of(req),
    )
}

/// The turn that a chat request asks for: the call of the Interactions API with the text of
/// its last message.
pub open spec fn turn_of(
    config: ConfigView,
    sessions: Map<Seq<u8>, SessionView>,
    req: JsonView,
    model: Seq<char>,
    openai: JsonView,
    stream: bool,
) -> Result<PendingView, Seq<char>> {
    match openai.array_at("messages"@) {
        None => Err("openai request missing messages array"@),
        Some(messages) => if messages.len() == 0 {
            Err("openai request has empty messages"@)
        } else if message_text(messages.last()).len() == 0 {
            Err("last message has no text content"@)
        } else {
            Ok(
                PendingView {
                    payload: encode_utf8(
                        json_text(request_call(config, sessions, req, model, openai)),
                    ),
                    model,
                    request: openai,
                    stream,
                },
            )
        },
    }
}

/// Prepares the turn that a chat request asks for.
pub fn plan_turn(
    config: &PluginConfig,
    sessions: &SessionMap,
    req: &Json,
    model: &str,
    openai_req: Json,
    stream: bool,
) -> (r: Result<PendingCall, String>)
    ensures
        pending_view(r) == turn_of(config@, sessions@, req@, model@, openai_req@, stream),
        r matches Ok(call) ==> reaches_host(
            call.payload@,
            request_call(config@, sessions@, req@, model@, openai_req@),
            request_body(config@, sessions@, model@, openai_req@),
        ),
{
    let messages: &Vec<Json> = match openai_req.array_at("messages") {
        Some(messages) => messages,
        None => {
            return Err("openai request missing messages array".to_owned());
        },
    };
    let n: usize = messages.len();
    if n == 0 {
        return Err("openai request has empty messages".to_owned());
    }
    let text: String = extract_text_content(&messages[n - 1]);
    if text.as_str().is_empty() {
        return Err("last message has no text content".to_owned());
    }
    let established: &[Json] = slice_subrange(messages.as_slice(), 0, n - 1);
    assert(array_views(established@) =~= array_views(messages@).drop_last());
    let key: [u8; 32] = compute_session_key(model, established, &openai_req);
    let session: Option<&SessionState> = sessions.get(&key);
    let body: Json = build_interactions_request(
        config,
        model,
        session,
        text.as_str(),
        openai_req.array_at("tools"),
    );
    let api_key: &str = match req.get("AuthAttributes") {
        Some(attributes) => text_or(attributes.str_at("api_key")),
        None => text_or(None),
    };
    let payload: Vec<u8> = build_host_payload(
        config.endpoint.as_str(),
        api_key,
        &body,
        text_or(req.str_at("HostCallbackID")),
    );
    Ok(PendingCall { payload, model: model.to_owned(), request: openai_req, stream })
}

/// The model and the encoded chat request that an executor request carries.
pub open spec fn executor_source(req: JsonView) -> Result<(Seq<char>, Seq<char>), Seq<char>> {
    let model = or_empty(req.str_at("Model"@));
    let payload = match req.get("OriginalRequest"@) {
        Some(original) => Some(original),
        None => req.get("Payload"@),
    };
    if model.len() == 0 {
        Err("executor request missing model"@)
    } else {
        match payload {
            Some(JsonView::Str(text)) => Ok((model, text)),
            _ => Err("executor request missing OriginalRequest"@),
        }
    }
}

/// The model of a pair of texts or an error.
pub open spec fn source_view(r: Result<(&str, &str), String>) -> Result<
    (Seq<char>, Seq<char>),
    Seq<char>,
> {
    match r {
        Ok((model, text)) => Ok((model@, text@)),
        Err(e) => Err(e@),
    }
}

/// Finds the model and the encoded chat request in an executor request.
pub fn read_executor_request(req: &Json) -> (r: Result<(&str, &str), String>)
    ensures
        source_view(r) == executor_source(req@),
{
    let model: &str = text_or(req.str_at("Model"));
    if model.is_empty() {
        return Err("executor request missing model".to_owned());
    }
    let original: Option<&Json> = match req.get("OriginalRequest") {
        Some(original) => Some(original),
        None => req.get("Payload"),
    };
    match original {
        Some(Json::Str(text)) => Ok((model, text.as_str())),
        _ => Err("executor request missing OriginalRequest".to_owned()),
    }
}

/// A text behind another one.
pub(crate) fn joined(head: &str, tail: &str) -> (r: String)
    ensures
        r@ == head@ + tail@,
{
    let mut out = String::new();
    out.append(head);
    out.append(tail);
    assert(out@ =~= head@ + tail@);
    out
}

/// What the bytes of an executor request hold: the request itself, the model and the chat
/// request.
pub open spec fn chat_request(raw: Seq<u8>) -> Result<(JsonView, Seq<char>, JsonView), Seq<char>> {
    match json_parse(raw) {
        Err(e) => Err("decode executor request: "@ + e),
        Ok(req) => match executor_source(req) {
            Err(e) => Err(e),
            Ok((model, text)) => match base64_bytes(text) {
                Err(e) => Err("decode original request base64: "@ + e),
                Ok(original) => match json_parse(original) {
                    Err(e) => Err("parse openai request: "@ + e),
                    Ok(openai) => Ok((req, model, openai)),
                },
            },
        },
    }
}

/// The turn that the bytes of an executor request ask for.
pub open spec fn execution_of(
    config: ConfigView,
    sessions: Map<Seq<u8>, SessionView>,
    raw: Seq<u8>,
    stream: bool,
) -> Result<PendingView, Seq<char>> {
    match chat_request(raw) {
        Err(e) => Err(e),
        Ok((req, model, openai)) => turn_of(config, sessions, req, model, openai, stream),
    }
}

/// Executes a chat request up to the call that the host has to make.
pub fn execute(config: &PluginConfig, sessions: &SessionMap, raw: &[u8], stream: bool) -> (r:
    Result<PendingCall, String>)
    ensures
        pending_view(r) == execution_of(config@, sessions@, raw@, stream),
        r matches Ok(call) ==> (chat_request(raw@) matches Ok((req, model, openai))
            && reaches_host(
            call.payload@,
            request_call(config@, sessions@, req, model, openai),
            request_body(config@, sessions@, model, openai),
        )),
{
    let req: Json = match parse_json(raw) {
        Ok(req) => req,
        Err(e) => {
            return Err(joined("decode executor request: ", e.as_str()));
        },
    };
    let (model, original_b64): (&str, &str) = match read_executor_request(&req) {
        Ok(source) => source,
        Err(e) => {
            return Err(e);
        },
    };
    let original: Vec<u8> = match decode_base64(original_b64) {
        Ok(original) => original,
        Err(e) => {
            return Err(joined("decode original request base64: ", e.as_str()));
        },
    };
    let openai_req: Json = match parse_json(original.as_slice()) {
        Ok(openai_req) => openai_req,
        Err(e) => {
            return Err(joined("parse openai request: ", e.as_str()));
        },
    };
    plan_turn(config, sessions, &req, model, openai_req, stream)
}

} // verus!
