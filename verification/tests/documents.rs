//! JSON documents, what is read out of them, and the codecs.
use cpa_interactions_provider::codec::{parse_json, print_json};
use cpa_interactions_provider::content::{
    extract_model_output_text, extract_text_content, extract_tool_calls,
};
use cpa_interactions_provider::json::{member, text_json, Json};

fn read(text: &str) -> Json {
    parse_json(text.as_bytes()).unwrap()
}

#[test]
fn documents_are_read() {
    assert_eq!(read("null"), Json::Null);
    assert_eq!(read(" true "), Json::Bool(true));
    assert_eq!(read("-7"), Json::Int(-7));
    assert_eq!(read("9223372036854775807"), Json::Int(9223372036854775807));
    assert_eq!(
        read("9223372036854775808"),
        Json::Num(serde_json::Number::from(9223372036854775808u64)),
    );
    assert_eq!(read("\"a\\n\\u00e9\""), Json::Str("a\n\u{e9}".to_string()));
    assert_eq!(read("[1,[]]"), Json::Array(vec![Json::Int(1), Json::Array(vec![])]));
    assert_eq!(
        read("{\"b\":1,\"a\":2,\"b\":3}"),
        Json::Object(vec![member("a", Json::Int(2)), member("b", Json::Int(3))]),
    );
}

#[test]
fn broken_documents_are_errors() {
    for text in ["", "{", "[1,]", "tru", "1 2"] {
        let cause = serde_json::from_slice::<serde_json::Value>(text.as_bytes()).unwrap_err();
        assert_eq!(parse_json(text.as_bytes()), Err(cause.to_string()));
    }
}

#[test]
fn documents_are_printed_with_sorted_members() {
    let document = Json::Object(vec![
        member("z", Json::Int(1)),
        member("a", Json::Array(vec![Json::Null, Json::Bool(false), text_json("q\"\n")])),
        member("z", Json::Int(2)),
    ]);
    assert_eq!(print_json(&document), r#"{"a":[null,false,"q\"\n"],"z":2}"#);
}

#[test]
fn printed_documents_are_read_back() {
    let text = r#"{"a":[1,-2,{"b":"\u0001\u001f\u007f / \\ \" é 😀"}],"c":{},"d":null}"#;
    let document = read(text);
    assert_eq!(parse_json(print_json(&document).as_bytes()), Ok(document));
    let low = Json::Int(i64::MIN);
    assert_eq!(parse_json(print_json(&low).as_bytes()), Ok(low));
    assert!(print_json(&read(r#""tab\tline\n\u0000""#)).chars().all(|c| c >= ' '));
    let mut deep = text_json("x");
    for _ in 0..127 {
        deep = Json::Array(vec![deep]);
    }
    assert_eq!(parse_json(print_json(&deep).as_bytes()), Ok(deep));
}

#[test]
fn other_numbers_are_kept() {
    for text in ["1.5", "18446744073709551615", "-0.0", "1e300"] {
        let value: serde_json::Value = serde_json::from_str(text).unwrap();
        assert_eq!(print_json(&read(text)), value.to_string());
    }
}

#[test]
fn later_member_counts() {
    let document = Json::Object(vec![member("k", Json::Int(1)), member("k", text_json("v"))]);
    assert_eq!(document.get("k"), Some(&text_json("v")));
    assert_eq!(document.str_at("k"), Some("v"));
    assert_eq!(document.int_at("k"), 0);
    assert_eq!(document.get("other"), None);
    assert_eq!(text_json("k").get("k"), None);
}

#[test]
fn typed_members_are_found() {
    let document = read(r#"{"s":"t","n":3,"f":3.5,"a":[1],"big":18446744073709551615}"#);
    assert_eq!(document.str_at("s"), Some("t"));
    assert_eq!(document.str_at("n"), None);
    assert_eq!(document.int_at("n"), 3);
    assert_eq!(document.int_at("f"), 0);
    assert_eq!(document.int_at("big"), 0);
    assert_eq!(document.int_at("s"), 0);
    assert_eq!(document.array_at("a"), Some(&vec![Json::Int(1)]));
    assert_eq!(document.array_at("s"), None);
    // A number that was not read but made is told apart by its value too.
    let made = Json::Object(vec![member("n", Json::Num(serde_json::Number::from(4)))]);
    assert_eq!(made.int_at("n"), 4);
}

#[test]
fn clones_are_equal() {
    let document = read(r#"{"a":[1,2.5,"x",null,true,{"b":[]}]}"#);
    assert_eq!(document.clone(), document);
}

#[test]
fn text_of_a_message() {
    assert_eq!(extract_text_content(&read(r#"{"content":"hello"}"#)), "hello");
    assert_eq!(
        extract_text_content(&read(
            r#"{"content":[{"type":"text","text":"a"},{"type":"image_url","text":"no"},{"type":"text","text":"b"},{"type":"text"},{"text":"c"}]}"#
        )),
        "a b",
    );
    assert_eq!(
        extract_text_content(&read(
            r#"{"content":[{"type":"image_url"},{"type":"text","text":"one"},{"type":"text","text":""},{"type":"text","text":"two"},{"type":"image_url"}]}"#
        )),
        "one  two",
    );
    assert_eq!(extract_text_content(&read(r#"{"content":[{"type":"text","text":"x"}]}"#)), "x");
    assert_eq!(extract_text_content(&read(r#"{"content":[]}"#)), "");
    assert_eq!(extract_text_content(&read(r#"{"content":5}"#)), "");
    assert_eq!(extract_text_content(&read(r#"{"role":"user"}"#)), "");
    assert_eq!(extract_text_content(&read(r#"["content"]"#)), "");
}

#[test]
fn dropped_part_does_not_change_the_text() {
    let with = read(
        r#"{"content":[{"type":"text","text":"a"},{"type":"input_audio","text":"x"},{"type":"text","text":"b"}]}"#,
    );
    let without = read(r#"{"content":[{"type":"text","text":"a"},{"type":"text","text":"b"}]}"#);
    assert_eq!(extract_text_content(&with), extract_text_content(&without));
}

#[test]
fn text_of_an_interaction() {
    let interaction = read(
        r#"{"steps":[
            {"type":"thought","summary":[{"type":"text","text":"hm "}]},
            {"type":"model_output","content":[{"type":"text","text":"one"},{"text":" two"},{"image":1}]},
            {"type":"function_call","content":[{"text":"no"}]},
            {"type":"user_input","content":[{"text":"no"}]},
            {"type":"model_output"},
            {"content":[{"text":"no"}]},
            {"type":"model_output","content":[{"text":"!"}]}
        ]}"#,
    );
    assert_eq!(extract_model_output_text(&interaction), "hm one two!");
    assert_eq!(extract_model_output_text(&read("{}")), "");
    assert_eq!(extract_model_output_text(&read(r#"{"steps":"x"}"#)), "");
}

#[test]
fn function_calls_become_tool_calls() {
    let interaction = read(
        r#"{"steps":[
            {"type":"function_call","id":"c1","name":"f","arguments":{"b":1,"a":[true]}},
            {"type":"model_output","content":[{"text":"x"}]},
            {"type":"function_call","id":"c2","name":"g","arguments":"{\"k\": 1}"},
            {"type":"function_call"}
        ]}"#,
    );
    let calls = extract_tool_calls(&interaction);
    let texts: Vec<String> = calls.iter().map(print_json).collect();
    assert_eq!(
        texts,
        [
            r#"{"function":{"arguments":"{\"a\":[true],\"b\":1}","name":"f"},"id":"c1","type":"function"}"#,
            r#"{"function":{"arguments":"{\"k\": 1}","name":"g"},"id":"c2","type":"function"}"#,
            r#"{"function":{"arguments":"{}","name":""},"id":"","type":"function"}"#,
        ],
    );
    assert_eq!(extract_tool_calls(&read("{}")), vec![]);
}
