//! The plugin as its host sees it.
use base64::engine::general_purpose::STANDARD;
use base64::Engine;

use cpa_interactions_provider::answer::HostReply;
use cpa_interactions_provider::executor::PendingCall;
use cpa_interactions_provider::plugin::{
    config, handle_method, plugin_call, resume_call, resume_method, sessions, CallStep,
    PluginState, Step,
};
use cpa_interactions_provider::registration::registration_result;

fn reply(step: CallStep) -> (i32, String) {
    match step {
        CallStep::Reply { rc, response } => (rc, String::from_utf8(response.bytes).unwrap()),
        CallStep::CallHost(_) => panic!("a call of the host"),
    }
}

fn pending(step: CallStep) -> PendingCall {
    match step {
        CallStep::CallHost(call) => call,
        CallStep::Reply { rc, .. } => panic!("a reply with code {rc}"),
    }
}

fn call(state: &mut PluginState, method: &str, request: &str) -> (i32, String) {
    reply(plugin_call(state, Some(method.as_bytes()), request.as_bytes()))
}

fn chat(text: &str) -> String {
    let openai = format!(r#"{{"messages":[{{"role":"user","content":"{text}"}}]}}"#);
    format!(r#"{{"Model":"gemini-2.5-flash","OriginalRequest":"{}"}}"#, STANDARD.encode(openai))
}

fn interaction(id: &str) -> HostReply {
    let body = format!(
        r#"{{"ok":true,"result":{{"status_code":200,"body":"{}"}}}}"#,
        STANDARD.encode(format!(
            r#"{{"id":"{id}","steps":[{{"type":"model_output","content":[{{"text":"hi"}}]}}]}}"#
        )),
    );
    HostReply::Returned { rc: 0, body: body.into_bytes() }
}

#[test]
fn method_has_to_be_named() {
    let mut state = PluginState::new();
    assert_eq!(
        reply(plugin_call(&mut state, None, b"")),
        (
            1,
            r#"{"ok":false,"error":{"code":"invalid_method","message":"method is required"}}"#
                .to_string()
        ),
    );
    assert_eq!(
        reply(plugin_call(&mut state, Some(b"\xff"), b"")),
        (
            1,
            r#"{"ok":false,"error":{"code":"invalid_method","message":"method is not utf-8"}}"#
                .to_string()
        ),
    );
}

#[test]
fn unknown_method_is_answered_with_an_error_envelope() {
    let mut state = PluginState::new();
    assert_eq!(
        call(&mut state, "no\"such", ""),
        (
            0,
            r#"{"ok":false,"error":{"code":"unknown_method","message":"unknown method: no\"such"}}"#
                .to_string()
        ),
    );
}

#[test]
fn fixed_answers() {
    let mut state = PluginState::new();
    assert_eq!(
        call(&mut state, "executor.identifier", "ignored"),
        (0, r#"{"ok":true,"result":{"identifier":"cpa-interactions-provider"}}"#.to_string()),
    );
    assert_eq!(
        call(&mut state, "executor.http_request", ""),
        (
            0,
            r#"{"ok":true,"result":{"StatusCode":200,"Headers":{"content-type":["application/json"]}}}"#
                .to_string()
        ),
    );
    assert_eq!(
        call(&mut state, "executor.count_tokens", ""),
        (
            0,
            format!(
                r#"{{"ok":true,"result":{{"Payload":"{}"}}}}"#,
                STANDARD.encode(r#"{"total_tokens":0}"#),
            )
        ),
    );
}

#[test]
fn plugin_is_registered_and_configured() {
    let mut state = PluginState::new();
    let registered = (0, format!(r#"{{"ok":true,"result":{}}}"#, registration_result()));
    assert_eq!(call(&mut state, "plugin.register", ""), registered);
    assert!(config(&state).enabled);
    let route = r#"{"RequestedModel":"gemini-2.5-flash"}"#;
    let claimed = call(&mut state, "model.route", route);
    assert!(claimed.1.contains("\"Handled\":true"));
    assert_eq!(
        call(&mut state, "plugin.reconfigure", r#"{"config_yaml":"enabled: false"}"#),
        registered,
    );
    assert!(!config(&state).enabled);
    let declined = call(&mut state, "model.route", route);
    assert_eq!(declined, (0, r#"{"ok":true,"result":{"Handled":false}}"#.to_string()));
}

#[test]
fn failed_configuration_is_reported_and_changes_nothing() {
    let mut state = PluginState::new();
    call(&mut state, "plugin.register", r#"{"config_yaml":"endpoint: e"}"#);
    let cause = serde_json::from_slice::<serde_json::Value>(b"?").unwrap_err();
    assert_eq!(
        call(&mut state, "plugin.reconfigure", "?"),
        (
            1,
            format!(
                r#"{{"ok":false,"error":{{"code":"plugin_error","message":"decode lifecycle request: {cause}"}}}}"#
            )
        ),
    );
    assert_eq!(config(&state).endpoint, "e");
}

#[test]
fn chat_request_calls_the_host_and_goes_on() {
    let mut state = PluginState::new();
    for (method, mark) in
        [("executor.execute", "Payload"), ("executor.execute_stream", "text/event-stream")]
    {
        let step = plugin_call(&mut state, Some(method.as_bytes()), chat("hello").as_bytes());
        let call = pending(step);
        let (rc, answer) = reply(resume_call(&mut state, &call, &interaction("i"), 77));
        assert_eq!(rc, 0);
        assert!(answer.starts_with(r#"{"ok":true,"result":{"#));
        assert!(answer.contains(mark));
    }
}

#[test]
fn failed_chat_request_is_reported() {
    let mut state = PluginState::new();
    assert_eq!(
        call(&mut state, "executor.execute", "{}"),
        (
            1,
            r#"{"ok":false,"error":{"code":"plugin_error","message":"executor request missing model"}}"#
                .to_string()
        ),
    );
    let step = plugin_call(&mut state, Some(b"executor.execute"), chat("hello").as_bytes());
    let call = pending(step);
    assert_eq!(
        reply(resume_call(&mut state, &call, &HostReply::NotInitialized, 0)),
        (
            1,
            r#"{"ok":false,"error":{"code":"plugin_error","message":"host api not initialized"}}"#
                .to_string()
        ),
    );
}

#[test]
fn first_response_writes_the_binding() {
    let mut state = PluginState::new();
    let openai = r#"{"messages":[{"role":"user","content":"hello"},{"role":"assistant","content":"hi"},{"role":"user","content":"more"}]}"#;
    let next =
        format!(r#"{{"Model":"gemini-2.5-flash","OriginalRequest":"{}"}}"#, STANDARD.encode(openai));
    for id in ["first", "second"] {
        let step = handle_method(&mut state, "executor.execute", chat("hello").as_bytes());
        let call = match step {
            Step::Call(call) => call,
            Step::Done(_) => panic!("no call"),
        };
        resume_method(&mut state, &call, &interaction(id), 0).unwrap();
        let step = plugin_call(&mut state, Some(b"executor.execute"), next.as_bytes());
        let payload: serde_json::Value = serde_json::from_slice(&pending(step).payload).unwrap();
        let body = STANDARD.decode(payload["body"].as_str().unwrap()).unwrap();
        let body: serde_json::Value = serde_json::from_slice(&body).unwrap();
        assert_eq!(body["previous_interaction_id"], "first");
    }
    assert!(sessions(&state).get(&[0; 32]).is_none());
}
