//! Envelopes, routing, registration.
use cpa_interactions_provider::codec::print_json;
use cpa_interactions_provider::config::{parse_config, PluginConfig};
use cpa_interactions_provider::envelope::{
    error_envelope, escape_json_string, ok_envelope_bytes, write_response, CliproxyBuffer,
};
use cpa_interactions_provider::executor::agent_named;
use cpa_interactions_provider::registration::{
    build_registration, registration_result, ABI_VERSION, SCHEMA_VERSION,
};
use cpa_interactions_provider::router::{is_gemini_chat_model, route_model};
use cpa_interactions_provider::text::control;

const DECLINED: &[u8] = br#"{"ok":true,"result":{"Handled":false}}"#;
const CLAIMED: &[u8] =
    br#"{"ok":true,"result":{"Handled":true,"Reason":"interactions-provider-claim","TargetKind":"self"}}"#;

fn value(text: &str) -> serde_json::Value {
    serde_json::from_str(text).unwrap()
}

#[test]
fn result_is_put_in_an_envelope() {
    assert_eq!(ok_envelope_bytes("{}"), br#"{"ok":true,"result":{}}"#);
}

#[test]
fn error_is_put_in_an_envelope() {
    assert_eq!(
        error_envelope("a\"b", "line\nnext\\"),
        r#"{"ok":false,"error":{"code":"a\"b","message":"line\nnext\\"}}"#,
    );
}

#[test]
fn every_escape_is_written() {
    assert_eq!(escape_json_string("\"\\\n\r\t"), "\\\"\\\\\\n\\r\\t");
    assert_eq!(escape_json_string("a\u{0}b\u{7f}c\u{9b}d"), "a b c d");
    assert_eq!(escape_json_string("plain / \u{e9} \u{1f600}"), "plain / \u{e9} \u{1f600}");
    assert_eq!(escape_json_string(""), "");
}

#[test]
fn escaped_text_is_read_back() {
    let text = "say \"hi\"\\\n\tend\r \u{e9}";
    let read = value(&format!("\"{}\"", escape_json_string(text)));
    assert_eq!(read.as_str(), Some(text));
    let envelope = value(&error_envelope("code", "bell \u{7} rings"));
    assert_eq!(envelope["error"]["message"], "bell   rings");
}

#[test]
fn error_envelope_has_just_its_members() {
    let (code, message) = ("a\"\\b", "x\n\r\ty \"{}\", \\");
    assert_eq!(
        value(&error_envelope(code, message)),
        serde_json::Value::Object(
            [
                ("ok".to_string(), serde_json::Value::Bool(false)),
                (
                    "error".to_string(),
                    serde_json::Value::Object(
                        [
                            ("code".to_string(), serde_json::Value::String(code.to_string())),
                            ("message".to_string(), serde_json::Value::String(message.to_string())),
                        ]
                        .into_iter()
                        .collect(),
                    ),
                ),
            ]
            .into_iter()
            .collect(),
        ),
    );
}

#[test]
fn escaping_goes_piece_by_piece() {
    let (a, b) = ("x\"\n", "\\y\u{1}");
    assert_eq!(
        escape_json_string(&format!("{a}{b}")),
        format!("{}{}", escape_json_string(a), escape_json_string(b)),
    );
}

#[test]
fn control_characters_are_those_of_the_standard_library() {
    for c in '\0'..=char::MAX {
        assert_eq!(control(c), c.is_control());
    }
}

#[test]
fn answer_is_written_to_the_buffer() {
    let mut buffer = CliproxyBuffer::null();
    write_response(&mut buffer, b"");
    assert!(buffer.bytes.is_empty());
    write_response(&mut buffer, b"abc");
    assert_eq!(buffer.bytes, b"abc");
    write_response(&mut buffer, b"");
    assert_eq!(buffer.bytes, b"abc");
}

#[test]
fn gemini_models_are_known_by_their_names() {
    for name in ["gemini-2.5-flash", "gemini-3-pro-preview", "GEMINI-x", "Gemma-2", "gemini-"] {
        assert!(is_gemini_chat_model(name), "{name}");
    }
    for name in ["gemini", "gpt-4", "models/gemini-2.5", "", " gemini-1"] {
        assert!(!is_gemini_chat_model(name), "{name}");
    }
}

#[test]
fn agents_are_known_by_their_exact_names() {
    let config = PluginConfig::defaults();
    assert!(agent_named(&config, "deep-research-preview-04-2026"));
    assert!(!agent_named(&config, "Deep-research-preview-04-2026"));
    assert!(!agent_named(&config, ""));
}

#[test]
fn gemini_models_and_agents_are_claimed() {
    let config = PluginConfig::defaults();
    for model in ["gemini-2.5-flash", "gemma-3", "antigravity-preview-05-2026"] {
        let raw = format!(r#"{{"RequestedModel":"{model}"}}"#);
        assert_eq!(route_model(&config, raw.as_bytes()).unwrap(), CLAIMED);
    }
}

#[test]
fn other_models_are_declined() {
    let config = PluginConfig::defaults();
    for raw in [r#"{"RequestedModel":"gpt-4"}"#, r#"{"RequestedModel":""}"#, "{}", "[]", "7"] {
        assert_eq!(route_model(&config, raw.as_bytes()).unwrap(), DECLINED);
    }
}

#[test]
fn only_agents_are_claimed_when_not_all_models_are_routed() {
    let config = parse_config("route_all_models: false\nagents: [gemini-agent]");
    let agent = br#"{"RequestedModel":"gemini-agent"}"#;
    assert_eq!(route_model(&config, agent).unwrap(), CLAIMED);
    let model = br#"{"RequestedModel":"gemini-2.5-flash"}"#;
    assert_eq!(route_model(&config, model).unwrap(), DECLINED);
}

#[test]
fn empty_agent_name_claims_nothing() {
    let mut config = PluginConfig::defaults();
    config.agents.push(String::new());
    assert_eq!(route_model(&config, b"{}").unwrap(), DECLINED);
}

#[test]
fn disabled_plugin_declines_everything() {
    let config = parse_config("enabled: false");
    let agent = br#"{"RequestedModel":"antigravity-preview-05-2026"}"#;
    assert_eq!(route_model(&config, agent).unwrap(), DECLINED);
    assert_eq!(route_model(&config, b"not json").unwrap(), DECLINED);
}

#[test]
fn broken_route_request_is_an_error() {
    let cause = serde_json::from_slice::<serde_json::Value>(b"nope").unwrap_err();
    assert_eq!(
        route_model(&PluginConfig::defaults(), b"nope"),
        Err(format!("decode route request: {cause}")),
    );
}

#[test]
fn registration_tells_what_the_plugin_is() {
    assert_eq!(ABI_VERSION, 1);
    assert_eq!(SCHEMA_VERSION, 1);
    let text = registration_result();
    assert_eq!(text, print_json(&build_registration()));
    let registration = value(&text);
    assert_eq!(
        registration,
        value(
            r#"{
            "schema_version": 1,
            "metadata": {
                "Name": "cpa-interactions-provider",
                "Version": "0.1.0",
                "Author": "AI-Trash",
                "GitHubRepository": "https://github.com/AI-Trash/cpa-interactions-provider",
                "ConfigFields": [
                    {"Name":"enabled","Type":"boolean","Description":"Master switch."},
                    {"Name":"endpoint","Type":"string","Description":"Interactions API endpoint URL."},
                    {"Name":"store","Type":"boolean","Description":"Store interactions server-side for chaining."},
                    {"Name":"agents","Type":"array","Description":"Model names treated as agents (use `agent` field)."},
                    {"Name":"default_environment","Type":"string","Description":"Default environment string for agents that require one."},
                    {"Name":"route_all_models","Type":"boolean","Description":"Claim Gemini chat-model requests too; when false only agent-named models route here."}
                ]
            },
            "capabilities": {
                "model_router": true,
                "executor": true,
                "executor_model_scope": "both",
                "executor_input_formats": ["chat-completions"],
                "executor_output_formats": ["chat-completions"]
            }
        }"#
        ),
    );
}
