//! The plugin's configuration and the small YAML subset in which the host hands it over.
use vstd::prelude::*;
use vstd::string::*;

use crate::codec::{json_parse, parse_json};
use crate::json::{or_empty, Json, JsonView};
use crate::text::{
    ascii_lowercase, has_prefix, lower_of, same_text, split, split_of, split_once, split_once_of,
    starts_with, trim, trim_of,
};

verus! {

/// The characters of each text of a list.
pub open spec fn texts_of(list: Seq<String>) -> Seq<Seq<char>> {
    list.map_values(|s: String| s@)
}

/// The plugin's configuration.
pub struct PluginConfig {
    /// Master switch: when off, the router declines all requests.
    pub enabled: bool,
    /// The URL of the Interactions API.
    pub endpoint: String,
    /// Whether interactions are stored on the server, so that turns can be chained.
    pub store: bool,
    /// The model names that are agents.
    pub agents: Vec<String>,
    /// The environment of an agent that needs one and for which none has been captured yet; empty
    /// for none.
    pub default_environment: String,
    /// Whether Gemini chat models are claimed too, and not only agents.
    pub route_all_models: bool,
}

/// The mathematical model of a configuration.
#[verifier::ext_equal]
pub struct ConfigView {
    pub enabled: bool,
    pub endpoint: Seq<char>,
    pub store: bool,
    pub agents: Seq<Seq<char>>,
    pub default_environment: Seq<char>,
    pub route_all_models: bool,
}

impl View for PluginConfig {
    type V = ConfigView;

    open spec fn view(&self) -> ConfigView {
        ConfigView {
            enabled: self.enabled,
            endpoint: self.endpoint@,
            store: self.store,
            agents: texts_of(self.agents@),
            default_environment: self.default_environment@,
            route_all_models: self.route_all_models,
        }
    }
}

/// The agents that are known without any configuration.
pub open spec fn default_agents() -> Seq<Seq<char>> {
    seq![
        "antigravity-preview-05-2026"@,
        "deep-research-preview-04-2026"@,
        "deep-research-max-preview-04-2026"@,
    ]
}

/// The configuration where nothing is set.
pub open spec fn default_config() -> ConfigView {
    ConfigView {
        enabled: true,
        endpoint: "https://generativelanguage.googleapis.com/v1beta/interactions"@,
        store: true,
        agents: default_agents(),
        default_environment: "remote"@,
        route_all_models: true,
    }
}

impl PluginConfig {
    /// The configuration where nothing is set.
    pub fn defaults() -> (r: Self)
        ensures
            r@ == default_config(),
    {
        let mut agents: Vec<String> = Vec::new();
        agents.push("antigravity-preview-05-2026".to_owned());
        agents.push("deep-research-preview-04-2026".to_owned());
        agents.push("deep-research-max-preview-04-2026".to_owned());
        assert(texts_of(agents@) =~= default_agents());
        PluginConfig {
            enabled: true,
            endpoint: "https://generativelanguage.googleapis.com/v1beta/interactions".to_owned(),
            store: true,
            agents,
            default_environment: "remote".to_owned(),
            route_all_models: true,
        }
    }
}

/// Whether a text says yes, in whatever case: `true`, `yes`, `on` or `1`.
pub open spec fn bool_value(s: Seq<char>) -> bool {
    let word = lower_of(trim_of(s));
    word == "true"@ || word == "yes"@ || word == "on"@ || word == "1"@
}

/// Reads a switch.
pub fn parse_bool(s: &str) -> (r: bool)
    ensures
        r == bool_value(s@),
{
    let lower: String = ascii_lowercase(trim(s));
    let word: &str = lower.as_str();
    same_text(word, "true") || same_text(word, "yes") || same_text(word, "on") || same_text(
        word,
        "1",
    )
}

/// Whether a text stands between two `quote` characters.
pub open spec fn is_quoted(s: Seq<char>, quote: char) -> bool {
    s.len() >= 2 && s[0] == quote && s.last() == quote
}

/// A text without the blanks around it and then without one pair of quotes around it.
pub open spec fn unquoted(s: Seq<char>) -> Seq<char> {
    let t = trim_of(s);
    if is_quoted(t, '"') || is_quoted(t, '\'') {
        t.subrange(1, t.len() - 1)
    } else {
        t
    }
}

/// Takes the blanks around a text away, and then one pair of quotes.
pub fn strip_quotes(s: &str) -> (r: &str)
    ensures
        r@ == unquoted(s@),
{
    let t: &str = trim(s);
    let n: usize = t.unicode_len();
    if n < 2 {
        return t;
    }
    let first: char = t.get_char(0);
    let last: char = t.get_char(n - 1);
    if (first == '"' && last == '"') || (first == '\'' && last == '\'') {
        t.substring_char(1, n - 1)
    } else {
        t
    }
}

/// The lines that say something, trimmed: those that are neither blank nor comments.
pub open spec fn significant(lines: Seq<Seq<char>>) -> Seq<Seq<char>>
    decreases lines.len(),
{
    if lines.len() == 0 {
        Seq::empty()
    } else {
        let rest = significant(lines.drop_last());
        let line = trim_of(lines.last());
        if line.len() == 0 || line[0] == '#' {
            rest
        } else {
            rest.push(line)
        }
    }
}

/// A value without the comment behind it.
pub open spec fn uncommented(value: Seq<char>) -> Seq<char> {
    match split_once_of(value, '#') {
        Some((before, _)) => trim_of(before),
        None => value,
    }
}

/// The key and the value of a line `key: value`; `None` of a line without a colon.
pub open spec fn setting(line: Seq<char>) -> Option<(Seq<char>, Seq<char>)> {
    match split_once_of(line, ':') {
        Some((key, value)) => Some((trim_of(key), uncommented(trim_of(value)))),
        None => None,
    }
}

/// The value of the last line that sets `key`.
pub open spec fn last_value(lines: Seq<Seq<char>>, key: Seq<char>) -> Option<Seq<char>>
    decreases lines.len(),
{
    if lines.len() == 0 {
        None
    } else {
        match setting(lines.last()) {
            Some((k, v)) if k == key => Some(v),
            _ => last_value(lines.drop_last(), key),
        }
    }
}

/// The unquoted value of the last line that sets `agents` to something on that very line.
pub open spec fn last_inline_agents(lines: Seq<Seq<char>>) -> Option<Seq<char>>
    decreases lines.len(),
{
    if lines.len() == 0 {
        None
    } else {
        match setting(lines.last()) {
            Some((k, v)) if k == "agents"@ && unquoted(v).len() > 0 => Some(unquoted(v)),
            _ => last_inline_agents(lines.drop_last()),
        }
    }
}

/// A list without the brackets around it.
pub open spec fn unbracketed(list: Seq<char>) -> Seq<char> {
    if list.len() >= 2 && list[0] == '[' && list.last() == ']' {
        list.subrange(1, list.len() - 1)
    } else {
        list
    }
}

/// The names among the pieces of a list: each without blanks and quotes, the empty ones left
/// out.
pub open spec fn names_of(pieces: Seq<Seq<char>>) -> Seq<Seq<char>>
    decreases pieces.len(),
{
    if pieces.len() == 0 {
        Seq::empty()
    } else {
        let rest = names_of(pieces.drop_last());
        let name = unquoted(trim_of(pieces.last()));
        if name.len() > 0 {
            rest.push(name)
        } else {
            rest
        }
    }
}

/// The names of a list written `[a, b]` or `a, b`.
pub open spec fn inline_names(list: Seq<char>) -> Seq<Seq<char>> {
    names_of(split_of(unbracketed(list), ','))
}

/// Whether a line is an item `- name` of a block list.
pub open spec fn is_item(line: Seq<char>) -> bool {
    has_prefix(line, "- "@)
}

/// The name in an item of a block list.
pub open spec fn item_name(line: Seq<char>) -> Seq<char> {
    unquoted(trim_of(line.skip(2)))
}

/// Whether a line is `agents:` and nothing else.
pub open spec fn is_agents_header(line: Seq<char>) -> bool {
    match split_once_of(line, ':') {
        Some((key, value)) => trim_of(key) == "agents"@ && trim_of(value).len() == 0,
        None => false,
    }
}

/// Whether an item that follows these lines belongs to a block list under `agents:`, that is,
/// whether they end in such a header and items behind it.
pub open spec fn in_agents_block(lines: Seq<Seq<char>>) -> bool
    decreases lines.len(),
{
    lines.len() > 0 && (is_agents_header(lines.last()) || (is_item(lines.last())
        && in_agents_block(lines.drop_last())))
}

/// The names in the block lists under `agents:`, in their order.
pub open spec fn block_names(lines: Seq<Seq<char>>) -> Seq<Seq<char>>
    decreases lines.len(),
{
    if lines.len() == 0 {
        Seq::empty()
    } else {
        let rest = block_names(lines.drop_last());
        if in_agents_block(lines.drop_last()) && is_item(lines.last()) && item_name(
            lines.last(),
        ).len() > 0 {
            rest.push(item_name(lines.last()))
        } else {
            rest
        }
    }
}

/// The value of a switch: what its last line says, or the default.
pub open spec fn switch_value(lines: Seq<Seq<char>>, key: Seq<char>, default: bool) -> bool {
    match last_value(lines, key) {
        Some(v) => bool_value(v),
        None => default,
    }
}

/// The value of a text field: what its last line says, or the default.
pub open spec fn text_value(lines: Seq<Seq<char>>, key: Seq<char>, default: Seq<char>) -> Seq<
    char,
> {
    match last_value(lines, key) {
        Some(v) => unquoted(v),
        None => default,
    }
}

/// What the lines set, the block lists left aside.
pub open spec fn line_config(lines: Seq<Seq<char>>) -> ConfigView {
    let default = default_config();
    ConfigView {
        enabled: switch_value(lines, "enabled"@, default.enabled),
        endpoint: text_value(lines, "endpoint"@, default.endpoint),
        store: switch_value(lines, "store"@, default.store),
        agents: match last_inline_agents(lines) {
            Some(list) => inline_names(list),
            None => default.agents,
        },
        default_environment: text_value(
            lines,
            "default_environment"@,
            default.default_environment,
        ),
        route_all_models: switch_value(lines, "route_all_models"@, default.route_all_models),
    }
}

/// The names that the lines give to agents: those of the last inline list, and behind them
/// those of the block lists. `None` where they give none and leave the agents as they are.
pub open spec fn listed_agents(lines: Seq<Seq<char>>) -> Option<Seq<Seq<char>>> {
    match last_inline_agents(lines) {
        Some(list) => Some(inline_names(list) + block_names(lines)),
        None => if block_names(lines).len() > 0 {
            Some(block_names(lines))
        } else {
            None
        },
    }
}

/// The configuration that trimmed lines describe: each field has the value of the last line
/// that sets it, or its default; the names listed under `agents:`, on that line or in a block
/// behind it, override the default agents.
pub open spec fn lines_config(lines: Seq<Seq<char>>) -> ConfigView {
    ConfigView {
        agents: match listed_agents(lines) {
            Some(names) => names,
            None => default_agents(),
        },
        ..line_config(lines)
    }
}

/// The configuration that lines describe, blank lines and comments among them.
pub open spec fn described_by(lines: Seq<Seq<char>>) -> ConfigView {
    lines_config(significant(lines))
}

/// The configuration that a text describes. (A carriage return before the end of a line is
/// white space, which trimming takes away.)
pub open spec fn config_of(text: Seq<char>) -> ConfigView {
    described_by(split_of(text, '\n'))
}

/// `config` after one more line.
pub open spec fn set_by(config: ConfigView, line: Seq<char>) -> ConfigView {
    match setting(line) {
        Some((key, value)) => if key == "enabled"@ {
            ConfigView { enabled: bool_value(value), ..config }
        } else if key == "endpoint"@ {
            ConfigView { endpoint: unquoted(value), ..config }
        } else if key == "store"@ {
            ConfigView { store: bool_value(value), ..config }
        } else if key == "default_environment"@ {
            ConfigView { default_environment: unquoted(value), ..config }
        } else if key == "route_all_models"@ {
            ConfigView { route_all_models: bool_value(value), ..config }
        } else if key == "agents"@ && unquoted(value).len() > 0 {
            ConfigView { agents: inline_names(unquoted(value)), ..config }
        } else {
            config
        },
        None => config,
    }
}

/// The six keys differ from each other.
pub proof fn lemma_keys_differ()
    ensures
        "enabled"@ != "endpoint"@,
        "enabled"@ != "store"@,
        "enabled"@ != "default_environment"@,
        "enabled"@ != "route_all_models"@,
        "enabled"@ != "agents"@,
        "endpoint"@ != "store"@,
        "endpoint"@ != "default_environment"@,
        "endpoint"@ != "route_all_models"@,
        "endpoint"@ != "agents"@,
        "store"@ != "default_environment"@,
        "store"@ != "route_all_models"@,
        "store"@ != "agents"@,
        "default_environment"@ != "route_all_models"@,
        "default_environment"@ != "agents"@,
        "route_all_models"@ != "agents"@,
{
    reveal_strlit("enabled");
    reveal_strlit("endpoint");
    reveal_strlit("store");
    reveal_strlit("default_environment");
    reveal_strlit("route_all_models");
    reveal_strlit("agents");
    assert("enabled"@.len() == 7);
    assert("endpoint"@.len() == 8);
    assert("store"@.len() == 5);
    assert("default_environment"@.len() == 19);
    assert("route_all_models"@.len() == 16);
    assert("agents"@.len() == 6);
}

/// One more line sets what it sets.
pub proof fn lemma_set_by(lines: Seq<Seq<char>>, line: Seq<char>)
    ensures
        line_config(lines.push(line)) == set_by(line_config(lines), line),
{
    lemma_keys_differ();
    assert(lines.push(line).drop_last() =~= lines);
    assert(lines.push(line).last() == line);
    assert(line_config(lines.push(line)) =~= set_by(line_config(lines), line));
}

fn split_names(list: &str) -> (r: Vec<String>)
    ensures
        texts_of(r@) == inline_names(list@),
{
    let n: usize = list.unicode_len();
    let inner: &str = if n >= 2 && list.get_char(0) == '[' && list.get_char(n - 1) == ']' {
        list.substring_char(1, n - 1)
    } else {
        list
    };
    assert(inner@ == unbracketed(list@));
    let pieces: Vec<&str> = split(inner, ',');
    let ghost all = split_of(inner@, ',');
    let mut out: Vec<String> = Vec::new();
    let mut i: usize = 0;
    assert(texts_of(out@) =~= names_of(all.take(0)));
    while i < pieces.len()
        invariant
            i <= pieces@.len(),
            pieces@.len() == all.len(),
            forall|k: int| 0 <= k < pieces@.len() ==> pieces@[k]@ == all[k],
            texts_of(out@) == names_of(all.take(i as int)),
        decreases pieces@.len() - i,
    {
        assert(all.take(i + 1).drop_last() =~= all.take(i as int));
        let name: &str = strip_quotes(trim(pieces[i]));
        let ghost before = out@;
        if !name.is_empty() {
            out.push(name.to_owned());
            assert(texts_of(out@) =~= texts_of(before).push(name@));
        }
        i = i + 1;
    }
    assert(all.take(all.len() as int) =~= all);
    out
}

/// Whether a line lists agents on that very line.
pub open spec fn lists_agents(line: Seq<char>) -> bool {
    setting(line) matches Some((key, value)) && key == "agents"@ && unquoted(value).len() > 0
}

/// Takes over what one line sets, and says whether that was a list of agents.
fn apply_line(config: &mut PluginConfig, line: &str) -> (listed: bool)
    ensures
        final(config)@ == set_by(old(config)@, line@),
        listed == lists_agents(line@),
{
    proof {
        lemma_keys_differ();
    }
    let mut listed: bool = false;
    match split_once(line, ':') {
        None => {},
        Some((raw_key, raw_value)) => {
            let key: &str = trim(raw_key);
            let trimmed: &str = trim(raw_value);
            let value: &str = match split_once(trimmed, '#') {
                Some((before, _)) => trim(before),
                None => trimmed,
            };
            if same_text(key, "enabled") {
                config.enabled = parse_bool(value);
            } else if same_text(key, "endpoint") {
                config.endpoint = strip_quotes(value).to_owned();
            } else if same_text(key, "store") {
                config.store = parse_bool(value);
            } else if same_text(key, "default_environment") {
                config.default_environment = strip_quotes(value).to_owned();
            } else if same_text(key, "route_all_models") {
                config.route_all_models = parse_bool(value);
            } else if same_text(key, "agents") {
                let list: &str = strip_quotes(value);
                if !list.is_empty() {
                    config.agents = split_names(list);
                    listed = true;
                }
            }
        },
    }
    listed
}

fn agents_header(line: &str) -> (r: bool)
    ensures
        r == is_agents_header(line@),
{
    match split_once(line, ':') {
        Some((key, value)) => same_text(trim(key), "agents") && trim(value).is_empty(),
        None => false,
    }
}

/// Reads a configuration text. Blank lines, comments, lines without a colon and unknown keys
/// are passed over.
pub fn parse_config(text: &str) -> (r: PluginConfig)
    ensures
        r@ == config_of(text@),
{
    let lines: Vec<&str> = split(text, '\n');
    let ghost all = split_of(text@, '\n');
    let mut config = PluginConfig::defaults();
    let mut block: Vec<String> = Vec::new();
    let mut in_block: bool = false;
    let mut listed: bool = false;
    let mut i: usize = 0;
    proof {
        assert(significant(all.take(0)) =~= Seq::empty());
        assert(line_config(Seq::empty()) =~= default_config());
        assert(texts_of(block@) =~= block_names(Seq::empty()));
    }
    while i < lines.len()
        invariant
            i <= lines@.len(),
            lines@.len() == all.len(),
            forall|k: int| 0 <= k < lines@.len() ==> lines@[k]@ == all[k],
            config@ == line_config(significant(all.take(i as int))),
            texts_of(block@) == block_names(significant(all.take(i as int))),
            in_block == in_agents_block(significant(all.take(i as int))),
            listed == (last_inline_agents(significant(all.take(i as int))) is Some),
        decreases lines@.len() - i,
    {
        let ghost read = significant(all.take(i as int));
        assert(all.take(i + 1).drop_last() =~= all.take(i as int));
        let line: &str = trim(lines[i]);
        i = i + 1;
        if !line.is_empty() && line.get_char(0) != '#' {
            proof {
                lemma_set_by(read, line@);
                assert(read.push(line@).drop_last() =~= read);
            }
            if apply_line(&mut config, line) {
                listed = true;
            }
            let item: bool = starts_with(line, "- ");
            if in_block && item {
                proof {
                    reveal_strlit("- ");
                    assert(line@.skip(2) =~= line@.subrange(2, line@.len() as int));
                }
                let name: &str = strip_quotes(trim(line.substring_char(2, line.unicode_len())));
                let ghost before = block@;
                if !name.is_empty() {
                    block.push(name.to_owned());
                    assert(texts_of(block@) =~= texts_of(before).push(name@));
                }
            } else {
                in_block = agents_header(line);
            }
        }
    }
    assert(all.take(all.len() as int) =~= all);
    let ghost own = config.agents@;
    let ghost names = block@;
    if listed {
        config.agents.append(&mut block);
        assert(texts_of(own + names) =~= texts_of(own) + texts_of(names));
    } else if block.len() > 0 {
        config.agents = block;
    }
    assert(config@ =~= config_of(text@));
    config
}

/// The configuration that a lifecycle request carries.
pub open spec fn lifecycle_config(req: JsonView) -> ConfigView {
    config_of(or_empty(req.str_at("config_yaml"@)))
}

/// Reads the configuration that a lifecycle request carries.
pub fn read_lifecycle_config(req: &Json) -> (r: PluginConfig)
    ensures
        r@ == lifecycle_config(req@),
{
    match req.str_at("config_yaml") {
        Some(text) => parse_config(text),
        None => {
            proof {
                reveal_strlit("");
                assert(""@ =~= Seq::empty());
            }
            parse_config("")
        },
    }
}

/// The configuration after the bytes of a lifecycle request, or the error: no bytes change
/// nothing.
pub open spec fn configured(config: ConfigView, raw: Seq<u8>) -> Result<ConfigView, Seq<char>> {
    if raw.len() == 0 {
        Ok(config)
    } else {
        match json_parse(raw) {
            Ok(req) => Ok(lifecycle_config(req)),
            Err(e) => Err("decode lifecycle request: "@ + e),
        }
    }
}

/// Takes over the configuration in the bytes of a lifecycle request. An error leaves the
/// configuration as it is.
pub fn apply_config(config: &mut PluginConfig, raw: &[u8]) -> (r: Result<(), String>)
    ensures
        match configured(old(config)@, raw@) {
            Ok(new) => r is Ok && final(config)@ == new,
            Err(message) => r matches Err(e) && e@ == message && final(config)@ == old(config)@,
        },
{
    if raw.is_empty() {
        return Ok(());
    }
    match parse_json(raw) {
        Ok(req) => {
            *config = read_lifecycle_config(&req);
            Ok(())
        },
        Err(e) => {
            let mut message = String::new();
            message.append("decode lifecycle request: ");
            message.append(e.as_str());
            assert(message@ =~= "decode lifecycle request: "@ + e@);
            Err(message)
        },
    }
}

} // verus!
