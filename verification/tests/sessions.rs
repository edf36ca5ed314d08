//! The session map and its keys.
use cpa_interactions_provider::codec::{parse_json, print_json};
use cpa_interactions_provider::json::Json;
use cpa_interactions_provider::session::{
    build_assistant_message, build_next_messages, compute_session_key, session_key_text,
    SessionMap, SessionState,
};

fn read(text: &str) -> Json {
    parse_json(text.as_bytes()).unwrap()
}

fn messages(request: &Json) -> &[Json] {
    request.array_at("messages").unwrap()
}

fn session(id: &str, environment: Option<&str>) -> SessionState {
    SessionState {
        interaction_id: id.to_string(),
        environment_id: environment.map(|e| e.to_string()),
    }
}

#[test]
fn sessions_are_found_by_their_keys() {
    let mut sessions = SessionMap::new();
    let key = [7u8; 32];
    assert!(sessions.get(&key).is_none());
    sessions.insert(key, session("a", Some("e")));
    let found = sessions.get(&key).unwrap();
    assert_eq!(found.interaction_id, "a");
    assert_eq!(found.environment_id.as_deref(), Some("e"));
    // The first binding of a key stays.
    sessions.insert(key, session("b", None));
    let found = sessions.get(&key).unwrap();
    assert_eq!(found.interaction_id, "a");
    assert_eq!(found.environment_id.as_deref(), Some("e"));
}

#[test]
fn keys_that_begin_alike_are_told_apart() {
    let mut sessions = SessionMap::new();
    let mut keys = vec![];
    for i in 0..4u8 {
        let mut key = [1u8; 32];
        key[31] = i;
        keys.push(key);
        sessions.insert(key, session(&format!("s{i}"), None));
    }
    sessions.insert(keys[1], session("again", None));
    let found: Vec<&str> =
        keys.iter().map(|k| sessions.get(k).unwrap().interaction_id.as_str()).collect();
    assert_eq!(found, ["s0", "s1", "s2", "s3"]);
    let mut other = [1u8; 32];
    other[31] = 9;
    assert!(sessions.get(&other).is_none());
    other[31] = 0;
    other[0] = 2;
    assert!(sessions.get(&other).is_none());
}

#[test]
fn key_is_the_digest_of_model_history_system_tools_and_settings() {
    let request = read(
        r#"{"generation_config":{"t":1,"k":2},"tools":[{"y":1,"x":2},7],
            "messages":[{"role":"system","content":"S"},{"content":"no role"},{"role":"user","content":"U"},{"role":"user","content":"last"}]}"#,
    );
    let established = &messages(&request)[..3];
    let expected = "model:m\nmessages:\n\
        system\n{\"content\":\"S\",\"role\":\"system\"}\n\
        user\n{\"content\":\"U\",\"role\":\"user\"}\n\
        system:\n{\"content\":\"S\",\"role\":\"system\"}\n\
        tools:\n{\"x\":2,\"y\":1}\n7\n\
        generation_config:\n{\"k\":2,\"t\":1}\n";
    assert_eq!(session_key_text("m", established, &request), expected);
    assert_eq!(
        compute_session_key("m", established, &request),
        *blake3::hash(expected.as_bytes()).as_bytes(),
    );
}

#[test]
fn key_is_that_of_hashing_piece_by_piece() {
    let request = read(r#"{"messages":[{"role":"user","content":"a"},{"role":"user","content":"b"}]}"#);
    let mut hasher = blake3::Hasher::new();
    hasher.update(b"model:");
    hasher.update(b"gemini-2.5-flash");
    hasher.update(b"\n");
    hasher.update(b"messages:\n");
    hasher.update(b"user");
    hasher.update(b"\n");
    hasher.update(br#"{"content":"a","role":"user"}"#);
    hasher.update(b"\n");
    hasher.update(b"system:\n");
    hasher.update(b"tools:\n");
    hasher.update(b"generation_config:\n");
    assert_eq!(
        compute_session_key("gemini-2.5-flash", &messages(&request)[..1], &request),
        *hasher.finalize().as_bytes(),
    );
}

#[test]
fn member_order_and_messages_without_role_do_not_matter() {
    let a = read(r#"{"messages":[{"role":"user","content":"x"},{"role":"user","content":"y"}]}"#);
    let b = read(
        r#"{"messages":[{"content":"x","role":"user"},{"content":"ignored"},{"content":"y","role":"user"}]}"#,
    );
    assert_eq!(
        compute_session_key("m", &messages(&a)[..1], &a),
        compute_session_key("m", &messages(&b)[..2], &b),
    );
}

#[test]
fn model_tools_and_settings_matter() {
    let base = read(r#"{"messages":[{"role":"user","content":"x"}]}"#);
    let tools = read(r#"{"messages":[{"role":"user","content":"x"}],"tools":[{}]}"#);
    let settings = read(r#"{"messages":[{"role":"user","content":"x"}],"generation_config":null}"#);
    let key = |request: &Json, model: &str| compute_session_key(model, &messages(request)[..0], request);
    assert_ne!(key(&base, "m"), key(&base, "n"));
    assert_ne!(key(&base, "m"), key(&tools, "m"));
    assert_ne!(key(&base, "m"), key(&settings, "m"));
    assert_eq!(key(&base, "m"), key(&base, "m"));
}

#[test]
fn system_message_in_the_last_place_matters() {
    let a = read(r#"{"messages":[{"role":"system","content":"x"}]}"#);
    let b = read(r#"{"messages":[{"role":"system","content":"y"}]}"#);
    assert_ne!(
        compute_session_key("m", &messages(&a)[..0], &a),
        compute_session_key("m", &messages(&b)[..0], &b),
    );
}

#[test]
fn reply_is_put_behind_the_messages() {
    let request = read(r#"{"messages":[{"role":"user","content":"x"}]}"#);
    let next = build_next_messages(messages(&request), "ok", &vec![]);
    assert_eq!(next.len(), 2);
    assert_eq!(next[0], messages(&request)[0]);
    assert_eq!(print_json(&next[1]), r#"{"content":"ok","role":"assistant"}"#);
}

#[test]
fn assistant_message_holds_its_tool_calls() {
    let calls = vec![read(r#"{"id":"c"}"#)];
    let message = build_assistant_message("t", &calls);
    assert_eq!(message.str_at("role"), Some("assistant"));
    assert_eq!(message.str_at("content"), Some("t"));
    assert_eq!(message.array_at("tool_calls"), Some(&calls));
    assert_eq!(build_assistant_message("t", &vec![]).get("tool_calls"), None);
}
