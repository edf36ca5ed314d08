//! The configuration text and what is read out of it.
use cpa_interactions_provider::config::{apply_config, parse_bool, parse_config, strip_quotes};
use cpa_interactions_provider::config::PluginConfig;
use cpa_interactions_provider::text::{
    ascii_lowercase, decimal, same_text, split, split_once, starts_with, trim, white_space,
};

const DEFAULT_AGENTS: [&str; 3] = [
    "antigravity-preview-05-2026",
    "deep-research-preview-04-2026",
    "deep-research-max-preview-04-2026",
];

fn is_default(config: &PluginConfig) -> bool {
    config.enabled
        && config.endpoint == "https://generativelanguage.googleapis.com/v1beta/interactions"
        && config.store
        && config.agents == DEFAULT_AGENTS
        && config.default_environment == "remote"
        && config.route_all_models
}

#[test]
fn defaults_are_the_documented_ones() {
    assert!(is_default(&PluginConfig::defaults()));
}

#[test]
fn text_without_settings_gives_defaults() {
    assert!(is_default(&parse_config("")));
    assert!(is_default(&parse_config("\n   \n# a comment\n\t# another: true\n")));
    assert!(is_default(&parse_config("just a word\npriority: 1\n")));
}

#[test]
fn every_field_can_be_set() {
    let config = parse_config(
        "enabled: false\nendpoint: \"https://example.com/v1\"\nstore: no\nagents: [a, 'b', \"c\"]\n\
         default_environment: ''\nroute_all_models: off\n",
    );
    assert!(!config.enabled);
    assert_eq!(config.endpoint, "https://example.com/v1");
    assert!(!config.store);
    assert_eq!(config.agents, ["a", "b", "c"]);
    assert_eq!(config.default_environment, "");
    assert!(!config.route_all_models);
}

#[test]
fn documented_sample_is_read() {
    let config = parse_config(
        "enabled: true\npriority: 1\n# Optional overrides:\n\
         endpoint: \"https://generativelanguage.googleapis.com/v1beta/interactions\"\n\
         store: true\nagents:\n  - \"antigravity-preview-05-2026\"\n  - \"deep-research-preview-04-2026\"\n  \
         - \"deep-research-max-preview-04-2026\"\n\
         # Antigravity agents need an environment; default is \"remote\".\n\
         default_environment: \"remote\"\n",
    );
    assert!(config.enabled);
    assert_eq!(
        config.endpoint,
        "https://generativelanguage.googleapis.com/v1beta/interactions",
    );
    assert!(config.store);
    assert_eq!(config.agents, DEFAULT_AGENTS);
    assert_eq!(config.default_environment, "remote");
    assert!(config.route_all_models);
}

#[test]
fn block_list_overrides_the_default_agents() {
    let mut config = PluginConfig::defaults();
    let raw = br#"{"config_yaml":"agents:\n  - x\n"}"#;
    assert_eq!(apply_config(&mut config, raw), Ok(()));
    assert_eq!(config.agents, ["x"]);
    config.agents = PluginConfig::defaults().agents;
    assert!(is_default(&config));
}

#[test]
fn block_list_ends_at_another_line() {
    let config = parse_config("agents:\n- x\n- 'y'\n-z\n- w\nstore: yes\n- v\n");
    // `-z` is no item and ends the list; so nothing behind it belongs to the list.
    assert_eq!(config.agents, ["x", "y"]);
}

#[test]
fn block_list_goes_behind_an_inline_list() {
    let config = parse_config("agents: [one]\nagents:\n  # in between\n\n  - two\n  - \"\"\n  - three\n");
    assert_eq!(config.agents, ["one", "two", "three"]);
    assert_eq!(parse_config("agents: [a]\nagents:\n- b\n").agents, ["a", "b"]);
    assert_eq!(parse_config("agents:\n- two\nagents: [one]").agents, ["one", "two"]);
    assert_eq!(parse_config("agents: []\nagents:\n- b").agents, ["b"]);
}

#[test]
fn block_list_without_names_overrides_nothing() {
    assert_eq!(parse_config("agents:\nstore: true\n").agents, DEFAULT_AGENTS);
    assert_eq!(parse_config("agents: [one]\nagents:\n- ''\n").agents, ["one"]);
}

#[test]
fn comments_do_not_matter_on_the_first_and_the_last_line() {
    for text in ["# c\nendpoint: x", "endpoint: x\n# c", "\t endpoint: x \r", "endpoint: x"] {
        assert_eq!(parse_config(text).endpoint, "x");
    }
}

#[test]
fn later_inline_list_replaces_earlier_one() {
    let config = parse_config("agents: a, b\nagents: [c , , d]\n");
    assert_eq!(config.agents, ["c", "d"]);
    assert_eq!(parse_config("agents: []\n").agents, Vec::<String>::new());
    assert_eq!(parse_config("agents: \"\"\n").agents, DEFAULT_AGENTS);
}

#[test]
fn header_with_comment_opens_no_list() {
    let config = parse_config("agents: # names\n- x\n");
    assert_eq!(config.agents, DEFAULT_AGENTS);
}

#[test]
fn later_line_wins() {
    let config = parse_config("store: true\nendpoint: a\nstore: false\nendpoint: 'b'\n");
    assert!(!config.store);
    assert_eq!(config.endpoint, "b");
}

#[test]
fn comments_blanks_and_carriage_returns_do_not_matter() {
    let plain = parse_config("enabled: false\nendpoint: x\n");
    let other = parse_config("# head\r\n\r\n   enabled : false   # off\r\n\t endpoint:x\r\n# tail\r");
    assert!(!plain.enabled && !other.enabled);
    assert_eq!(plain.endpoint, "x");
    assert_eq!(other.endpoint, "x");
}

#[test]
fn value_ends_at_a_number_sign() {
    let config = parse_config("endpoint: https://example.com/#frag\ndefault_environment: \"a#b\"\n");
    assert_eq!(config.endpoint, "https://example.com/");
    assert_eq!(config.default_environment, "\"a");
}

#[test]
fn unknown_fields_are_passed_over() {
    let config = parse_config("priority: 7\nEnabled: false\nendpoints: x\n");
    assert!(is_default(&config));
}

#[test]
fn switches_are_read_in_any_case() {
    for yes in ["true", "TRUE", "Yes", "on", "1", "  True\t"] {
        assert!(parse_bool(yes), "{yes}");
    }
    for no in ["false", "no", "off", "0", "", "truee", "y", "\"true\""] {
        assert!(!parse_bool(no), "{no}");
    }
}

#[test]
fn one_pair_of_quotes_is_taken_off() {
    assert_eq!(strip_quotes("  \"a b\"  "), "a b");
    assert_eq!(strip_quotes("'x'"), "x");
    assert_eq!(strip_quotes("\"\""), "");
    assert_eq!(strip_quotes("\""), "\"");
    assert_eq!(strip_quotes("'"), "'");
    assert_eq!(strip_quotes("\"x'"), "\"x'");
    assert_eq!(strip_quotes("\"\"x\"\""), "\"x\"");
    assert_eq!(strip_quotes("'\u{e9}'"), "\u{e9}");
    assert_eq!(strip_quotes("\" x \""), " x ");
    assert_eq!(strip_quotes("plain"), "plain");
}

#[test]
fn lifecycle_request_sets_the_configuration() {
    let mut config = PluginConfig::defaults();
    let raw = br#"{"config_yaml":"enabled: false\nendpoint: \"e\""}"#;
    assert_eq!(apply_config(&mut config, raw), Ok(()));
    assert!(!config.enabled);
    assert_eq!(config.endpoint, "e");
    // No bytes change nothing.
    assert_eq!(apply_config(&mut config, b""), Ok(()));
    assert!(!config.enabled);
    // A request without a text sets every field to its default again.
    assert_eq!(apply_config(&mut config, b"{}"), Ok(()));
    assert!(is_default(&config));
    assert_eq!(apply_config(&mut config, br#"{"config_yaml":5}"#), Ok(()));
    assert!(is_default(&config));
}

#[test]
fn broken_lifecycle_request_is_an_error() {
    let mut config = parse_config("endpoint: kept");
    let error = apply_config(&mut config, b"{").unwrap_err();
    let cause = serde_json::from_slice::<serde_json::Value>(b"{").unwrap_err();
    assert_eq!(error, format!("decode lifecycle request: {cause}"));
    assert_eq!(config.endpoint, "kept");
}

#[test]
fn texts_are_trimmed_as_by_the_standard_library() {
    for c in '\0'..=char::MAX {
        assert_eq!(white_space(c), c.is_whitespace(), "{:x}", c as u32);
    }
    for s in ["", " ", "a", " a ", "\u{3000}a b\u{2029}\n", "\u{200b}x"] {
        assert_eq!(trim(s), s.trim());
    }
}

#[test]
fn texts_are_split_as_by_the_standard_library() {
    for s in ["", ":", "a", "a:b", ":a:", "\u{e9}:\u{20ac}:x", "::"] {
        assert_eq!(split_once(s, ':'), s.split_once(':'));
        assert_eq!(split(s, ':'), s.split(':').collect::<Vec<_>>());
    }
}

#[test]
fn other_text_functions_agree_with_the_standard_library() {
    assert_eq!(ascii_lowercase("AbZ\u{c9}-9@[`{"), "AbZ\u{c9}-9@[`{".to_ascii_lowercase());
    assert!(same_text("\u{e9}a", "\u{e9}a"));
    assert!(!same_text("ab", "ac"));
    assert!(!same_text("ab", "abc"));
    assert!(starts_with("- x", "- "));
    assert!(!starts_with("-", "- "));
    for i in [0, 7, 10, -1, 429, 500, -2147483648, 2147483647] {
        assert_eq!(decimal(i), i.to_string());
    }
}
