//! Chat requests: the call that one becomes, and the answer to it.
use base64::engine::general_purpose::STANDARD;
use base64::Engine;

use cpa_interactions_provider::answer::{
    build_executor_response, build_stream_executor_response, finish_execute, HostReply, Usage,
};
use cpa_interactions_provider::codec::parse_json;
use cpa_interactions_provider::config::{parse_config, PluginConfig};
use cpa_interactions_provider::executor::{execute, PendingCall, HOST_METHOD};
use cpa_interactions_provider::session::{compute_session_key, SessionMap};

fn value(text: &str) -> serde_json::Value {
    serde_json::from_str(text).unwrap()
}

fn bytes_value(bytes: &[u8]) -> serde_json::Value {
    serde_json::from_slice(bytes).unwrap()
}

fn decoded(value: &serde_json::Value) -> Vec<u8> {
    STANDARD.decode(value.as_str().unwrap()).unwrap()
}

fn executor_request(model: &str, openai: &str) -> Vec<u8> {
    format!(
        r#"{{"Model":"{model}","OriginalRequest":"{}","AuthAttributes":{{"api_key":"the-key"}},"HostCallbackID":"cb"}}"#,
        STANDARD.encode(openai),
    )
    .into_bytes()
}

fn http_reply(status: i64, body: &str) -> HostReply {
    let body = format!(
        r#"{{"ok":true,"result":{{"status_code":{status},"body":"{}"}}}}"#,
        STANDARD.encode(body),
    );
    HostReply::Returned { rc: 0, body: body.into_bytes() }
}

fn start(sessions: &SessionMap, model: &str, openai: &str) -> PendingCall {
    execute(&PluginConfig::defaults(), sessions, &executor_request(model, openai), false)
        .ok()
        .unwrap()
}

fn start_error(raw: &[u8]) -> String {
    execute(&PluginConfig::defaults(), &SessionMap::new(), raw, false).err().unwrap()
}

/// The Interactions API request in the payload of a call.
fn posted(call: &PendingCall) -> serde_json::Value {
    bytes_value(&decoded(&bytes_value(&call.payload)["body"]))
}

const HELLO: &str = r#"{"messages":[{"role":"user","content":"hello"}]}"#;

#[test]
fn call_is_posted_through_the_host() {
    let call = start(&SessionMap::new(), "gemini-2.5-flash", HELLO);
    let host_call = bytes_value(&call.payload);
    assert_eq!(host_call["method"], "POST");
    assert_eq!(
        host_call["url"],
        "https://generativelanguage.googleapis.com/v1beta/interactions",
    );
    assert_eq!(
        host_call["headers"],
        value(r#"{"x-goog-api-key":["the-key"],"content-type":["application/json"]}"#),
    );
    assert_eq!(host_call["host_callback_id"], "cb");
    assert_eq!(host_call.as_object().unwrap().len(), 5);
    assert_eq!(
        posted(&call),
        value(
            r#"{"model":"gemini-2.5-flash","store":true,
                "input":[{"type":"user_input","content":[{"type":"text","text":"hello"}]}]}"#
        ),
    );
    assert_eq!(HOST_METHOD, "host.http.do");
    assert_eq!(call.model, "gemini-2.5-flash");
    assert!(!call.stream);
}

#[test]
fn agent_gets_an_environment() {
    let call = start(&SessionMap::new(), "antigravity-preview-05-2026", HELLO);
    assert_eq!(
        posted(&call),
        value(
            r#"{"agent":"antigravity-preview-05-2026","environment":"remote","store":true,
                "input":[{"type":"user_input","content":[{"type":"text","text":"hello"}]}]}"#
        ),
    );
    let config = parse_config("default_environment: \"\"\nstore: false\nendpoint: e");
    let raw = executor_request("antigravity-preview-05-2026", HELLO);
    let call = execute(&config, &SessionMap::new(), &raw, true).ok().unwrap();
    assert!(call.stream);
    assert_eq!(bytes_value(&call.payload)["url"], "e");
    let body = posted(&call);
    assert_eq!(body["agent"], "antigravity-preview-05-2026");
    assert_eq!(body.get("environment"), None);
    assert_eq!(body["store"], false);
}

#[test]
fn agent_that_needs_no_environment_gets_a_captured_one_only() {
    let mut sessions = SessionMap::new();
    let model = "deep-research-preview-04-2026";
    let call = start(&sessions, model, HELLO);
    assert_eq!(
        posted(&call),
        value(
            r#"{"agent":"deep-research-preview-04-2026","store":true,
                "input":[{"type":"user_input","content":[{"type":"text","text":"hello"}]}]}"#
        ),
    );
    finish_execute(&mut sessions, &call, &http_reply(200, INTERACTION), 0).unwrap();
    let next = start(
        &sessions,
        model,
        r#"{"messages":[{"role":"user","content":"hello"},{"content":"hi","role":"assistant"},{"role":"user","content":"more"}]}"#,
    );
    assert_eq!(posted(&next)["environment"], "env-9");
}

#[test]
fn model_that_is_no_agent_gets_no_environment() {
    let call = start(&SessionMap::new(), "antigravity-unknown", HELLO);
    assert_eq!(posted(&call)["model"], "antigravity-unknown");
    assert_eq!(posted(&call).get("environment"), None);
}

#[test]
fn tools_are_forwarded() {
    let call = start(
        &SessionMap::new(),
        "gemini-2.5-flash",
        r#"{"tools":[{"type":"function","function":{"name":"f"}}],"messages":[{"role":"user","content":"x"}]}"#,
    );
    assert_eq!(posted(&call)["tools"], value(r#"[{"type":"function","function":{"name":"f"}}]"#));
}

#[test]
fn missing_key_and_callback_are_empty() {
    let raw = format!(r#"{{"Model":"gemini-x","Payload":"{}"}}"#, STANDARD.encode(HELLO));
    let call = execute(&PluginConfig::defaults(), &SessionMap::new(), raw.as_bytes(), false)
        .ok()
        .unwrap();
    let host_call = bytes_value(&call.payload);
    assert_eq!(host_call["headers"]["x-goog-api-key"], value(r#"[""]"#));
    assert_eq!(host_call["host_callback_id"], "");
}

#[test]
fn only_the_last_message_is_sent() {
    let call = start(
        &SessionMap::new(),
        "gemini-2.5-flash",
        r#"{"messages":[{"role":"user","content":"old"},{"role":"assistant","content":"reply"},
            {"role":"user","content":[{"type":"text","text":"brand"},{"type":"image_url"},{"type":"text","text":"new"}]}]}"#,
    );
    let body = posted(&call);
    assert_eq!(body["input"][0]["content"][0]["text"], "brand new");
    assert_eq!(body["input"].as_array().unwrap().len(), 1);
    assert_eq!(body.get("previous_interaction_id"), None);
}

#[test]
fn every_error_of_a_chat_request() {
    let cause = serde_json::from_slice::<serde_json::Value>(b"x").unwrap_err();
    assert_eq!(start_error(b"x"), format!("decode executor request: {cause}"));
    assert_eq!(start_error(b"{}"), "executor request missing model");
    assert_eq!(start_error(br#"{"Model":""}"#), "executor request missing model");
    assert_eq!(start_error(br#"{"Model":"m"}"#), "executor request missing OriginalRequest");
    assert_eq!(
        start_error(br#"{"Model":"m","OriginalRequest":1,"Payload":"e30="}"#),
        "executor request missing OriginalRequest",
    );
    let cause = STANDARD.decode("*").unwrap_err();
    assert_eq!(
        start_error(br#"{"Model":"m","OriginalRequest":"*"}"#),
        format!("decode original request base64: {cause}"),
    );
    let cause = serde_json::from_slice::<serde_json::Value>(b"{").unwrap_err();
    assert_eq!(
        start_error(&executor_request("m", "{")),
        format!("parse openai request: {cause}"),
    );
    assert_eq!(
        start_error(&executor_request("m", r#"{"messages":{}}"#)),
        "openai request missing messages array",
    );
    assert_eq!(
        start_error(&executor_request("m", r#"{"messages":[]}"#)),
        "openai request has empty messages",
    );
    assert_eq!(
        start_error(&executor_request("m", r#"{"messages":[{"role":"user","content":""}]}"#)),
        "last message has no text content",
    );
}

const INTERACTION: &str = r#"{"id":"int-1","status":"completed","environment_id":"env-9",
    "steps":[{"type":"model_output","content":[{"type":"text","text":"hi"}]}],
    "usage":{"total_input_tokens":3,"total_output_tokens":4,"total_tokens":7}}"#;

#[test]
fn interaction_becomes_a_completion() {
    let mut sessions = SessionMap::new();
    let call = start(&sessions, "gemini-2.5-flash", HELLO);
    let answer = finish_execute(&mut sessions, &call, &http_reply(200, INTERACTION), 1234).unwrap();
    let envelope = bytes_value(&answer);
    assert_eq!(envelope["ok"], true);
    assert_eq!(
        envelope["result"]["Headers"],
        value(r#"{"content-type":["application/json"]}"#),
    );
    assert_eq!(
        bytes_value(&decoded(&envelope["result"]["Payload"])),
        value(
            r#"{"id":"int-1","object":"chat.completion","created":1234,"model":"gemini-2.5-flash",
                "choices":[{"index":0,"message":{"role":"assistant","content":"hi"},"finish_reason":"stop"}],
                "usage":{"prompt_tokens":3,"completion_tokens":4,"total_tokens":7}}"#
        ),
    );
    let next = parse_json(
        br#"[{"role":"user","content":"hello"},{"role":"assistant","content":"hi"}]"#,
    )
    .unwrap();
    let key = compute_session_key("gemini-2.5-flash", next.as_array().unwrap(), &call.request);
    let session = sessions.get(&key).unwrap();
    assert_eq!(session.interaction_id, "int-1");
    assert_eq!(session.environment_id.as_deref(), Some("env-9"));
}

#[test]
fn interaction_becomes_a_stream() {
    let mut sessions = SessionMap::new();
    let mut call = start(&sessions, "gemini-2.5-flash", HELLO);
    call.stream = true;
    let answer = finish_execute(&mut sessions, &call, &http_reply(200, INTERACTION), 5).unwrap();
    let envelope = bytes_value(&answer);
    assert_eq!(
        envelope["result"]["headers"],
        value(r#"{"content-type":["text/event-stream"]}"#),
    );
    assert_eq!(envelope["result"]["chunks"].as_array().unwrap().len(), 1);
    let events = String::from_utf8(decoded(&envelope["result"]["chunks"][0]["Payload"])).unwrap();
    let chunk = events
        .strip_prefix("data: ")
        .and_then(|rest| rest.strip_suffix("\n\ndata: [DONE]\n\n"))
        .unwrap();
    assert_eq!(chunk.lines().count(), 1);
    assert_eq!(events.lines().count(), 4);
    assert_eq!(
        value(chunk),
        value(
            r#"{"id":"int-1","object":"chat.completion.chunk","created":5,"model":"gemini-2.5-flash",
                "choices":[{"index":0,"delta":{"role":"assistant","content":"hi"},"finish_reason":"stop"}]}"#
        ),
    );
}

#[test]
fn answers_have_exact_bytes() {
    let usage = Usage { prompt_tokens: 1, completion_tokens: 2, total_tokens: 3 };
    let completion = completion_text();
    assert_eq!(
        build_executor_response("i", "m", "t", &vec![], usage, 9),
        format!(
            r#"{{"ok":true,"result":{{"Payload":"{}","Headers":{{"content-type":["application/json"]}}}}}}"#,
            STANDARD.encode(completion),
        )
        .into_bytes(),
    );
    let events = "data: {\"choices\":[{\"delta\":{\"content\":\"t\",\"role\":\"assistant\"},\
        \"finish_reason\":\"stop\",\"index\":0}],\"created\":9,\"id\":\"i\",\"model\":\"m\",\
        \"object\":\"chat.completion.chunk\"}\n\ndata: [DONE]\n\n";
    assert_eq!(
        build_stream_executor_response("i", "m", "t", &vec![], 9),
        format!(
            r#"{{"ok":true,"result":{{"headers":{{"content-type":["text/event-stream"]}},"chunks":[{{"Payload":"{}"}}]}}}}"#,
            STANDARD.encode(events),
        )
        .into_bytes(),
    );
}

fn completion_text() -> String {
    "{\"choices\":[{\"finish_reason\":\"stop\",\"index\":0,\"message\":{\"content\":\"t\",\
     \"role\":\"assistant\"}}],\"created\":9,\"id\":\"i\",\"model\":\"m\",\
     \"object\":\"chat.completion\",\"usage\":{\"completion_tokens\":2,\"prompt_tokens\":1,\
     \"total_tokens\":3}}"
        .to_string()
}

#[test]
fn missing_usage_counts_as_zero() {
    let mut sessions = SessionMap::new();
    let call = start(&sessions, "m", HELLO);
    let reply = http_reply(200, r#"{"id":"i","usage":{"total_tokens":"many"}}"#);
    let answer = finish_execute(&mut sessions, &call, &reply, 0).unwrap();
    let completion = bytes_value(&decoded(&bytes_value(&answer)["result"]["Payload"]));
    assert_eq!(
        completion["usage"],
        value(r#"{"prompt_tokens":0,"completion_tokens":0,"total_tokens":0}"#),
    );
    assert_eq!(completion["choices"][0]["message"]["content"], "");
}

#[test]
fn next_turn_continues_the_interaction() {
    let mut sessions = SessionMap::new();
    let model = "antigravity-preview-05-2026";
    let first = start(&sessions, model, HELLO);
    finish_execute(&mut sessions, &first, &http_reply(200, INTERACTION), 0).unwrap();
    let second = start(
        &sessions,
        model,
        r#"{"messages":[{"role":"user","content":"hello"},{"content":"hi","role":"assistant"},{"role":"user","content":"more"}]}"#,
    );
    let body = posted(&second);
    assert_eq!(body["previous_interaction_id"], "int-1");
    assert_eq!(body["environment"], "env-9");
    assert_eq!(body["input"][0]["content"][0]["text"], "more");
    // The latest turn is not what the session is found by.
    let other = start(
        &sessions,
        model,
        r#"{"messages":[{"role":"user","content":"hello"},{"content":"hi","role":"assistant"},{"role":"user","content":"else"}]}"#,
    );
    assert_eq!(posted(&other)["previous_interaction_id"], "int-1");
    // Another history, another model or other settings start afresh.
    let history = start(
        &sessions,
        model,
        r#"{"messages":[{"role":"user","content":"hello!"},{"content":"hi","role":"assistant"},{"role":"user","content":"more"}]}"#,
    );
    assert_eq!(posted(&history).get("previous_interaction_id"), None);
    assert_eq!(posted(&history)["environment"], "remote");
    let settings = start(
        &sessions,
        model,
        r#"{"generation_config":{},"messages":[{"role":"user","content":"hello"},{"content":"hi","role":"assistant"},{"role":"user","content":"more"}]}"#,
    );
    assert_eq!(posted(&settings).get("previous_interaction_id"), None);
}

#[test]
fn chain_goes_on_over_turns_with_tool_calls() {
    let mut sessions = SessionMap::new();
    let first = start(&sessions, "gemini-2.5-flash", HELLO);
    let reply = http_reply(
        200,
        r#"{"id":"i1","steps":[{"type":"thought","summary":[{"text":"hm."}]},{"type":"function_call","id":"c","name":"f","arguments":{"x":1}}]}"#,
    );
    let answer = finish_execute(&mut sessions, &first, &reply, 0).unwrap();
    let completion = bytes_value(&decoded(&bytes_value(&answer)["result"]["Payload"]));
    let message = &completion["choices"][0]["message"];
    assert_eq!(
        *message,
        value(
            r#"{"role":"assistant","content":"hm.","tool_calls":[{"id":"c","type":"function","function":{"name":"f","arguments":"{\"x\":1}"}}]}"#
        ),
    );
    // What the client was shown, sent back, is what the session is found by.
    let next = format!(
        r#"{{"messages":[{{"role":"user","content":"hello"}},{message},{{"role":"user","content":"go on"}}]}}"#
    );
    let second = start(&sessions, "gemini-2.5-flash", &next);
    assert_eq!(posted(&second)["previous_interaction_id"], "i1");
}

#[test]
fn interaction_without_a_name_is_not_continued() {
    let mut sessions = SessionMap::new();
    let first = start(&sessions, "m", HELLO);
    finish_execute(&mut sessions, &first, &http_reply(200, r#"{"id":""}"#), 0).unwrap();
    let second = start(
        &sessions,
        "m",
        r#"{"messages":[{"role":"user","content":"hello"},{"role":"assistant","content":""},{"role":"user","content":"more"}]}"#,
    );
    assert_eq!(posted(&second).get("previous_interaction_id"), None);
}

fn finish_error(reply: HostReply) -> String {
    let mut sessions = SessionMap::new();
    let call = start(&sessions, "m", HELLO);
    let error = finish_execute(&mut sessions, &call, &reply, 0).unwrap_err();
    // A turn that fails leaves no session.
    let again = start(&sessions, "m", HELLO);
    assert_eq!(posted(&again), posted(&call));
    error
}

fn returned(body: &str) -> HostReply {
    HostReply::Returned { rc: 0, body: body.as_bytes().to_vec() }
}

#[test]
fn every_error_of_the_host() {
    assert_eq!(finish_error(HostReply::NotInitialized), "host api not initialized");
    assert_eq!(finish_error(HostReply::NoCallFunction), "host call function missing");
    assert_eq!(
        finish_error(HostReply::Returned { rc: -3, body: vec![] }),
        "host.http.do returned rc=-3",
    );
    let cause = serde_json::from_slice::<serde_json::Value>(b"").unwrap_err();
    assert_eq!(finish_error(returned("")), format!("parse host.http.do envelope: {cause}"));
    assert_eq!(finish_error(returned("{}")), "host.http.do failed");
    assert_eq!(finish_error(returned(r#"{"ok":"yes"}"#)), "host.http.do failed");
    assert_eq!(
        finish_error(returned(r#"{"ok":false,"error":{"message":"no route"}}"#)),
        "no route",
    );
    assert_eq!(
        finish_error(returned(r#"{"ok":false,"error":"no route"}"#)),
        "host.http.do failed",
    );
    assert_eq!(finish_error(returned(r#"{"ok":true}"#)), "missing host.http.do result");
    assert_eq!(
        finish_error(returned(r#"{"ok":true,"result":{"status_code":500}}"#)),
        "missing host.http.do body",
    );
    let cause = STANDARD.decode("a").unwrap_err();
    assert_eq!(
        finish_error(returned(r#"{"ok":true,"result":{"status_code":200,"body":"a"}}"#)),
        format!("decode host.http.do body base64: {cause}"),
    );
}

#[test]
fn every_error_of_the_upstream() {
    assert_eq!(finish_error(http_reply(429, "slow down")), "upstream returned status 429: slow down");
    assert_eq!(
        finish_error(http_reply(4294967296 + 200, "{}")),
        "missing interaction.id",
    );
    let body = STANDARD.encode(b"a\xffb");
    assert_eq!(
        finish_error(returned(&format!(r#"{{"ok":true,"result":{{"body":"{body}"}}}}"#))),
        "upstream returned status 0: a\u{fffd}b",
    );
    let cause = serde_json::from_slice::<serde_json::Value>(b"<html>").unwrap_err();
    assert_eq!(
        finish_error(http_reply(200, "<html>")),
        format!("parse interaction response: {cause}"),
    );
    assert_eq!(finish_error(http_reply(200, r#"{"id":5}"#)), "missing interaction.id");
    for status in ["in_progress", "requires_action"] {
        assert_eq!(
            finish_error(http_reply(200, &format!(r#"{{"id":"i","status":"{status}"}}"#))),
            format!(
                "agent returned non-terminal status {status}; background polling is not supported in v0.1"
            ),
        );
    }
}
