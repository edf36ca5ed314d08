//! Laws of the configuration text, stated over its lines: the lines of a text are its pieces
//! between line feeds, and any line of them may be meant, the first and the last among them.
use vstd::prelude::*;

use crate::codec::json_parse;
use crate::config::{
    block_names, bool_value, config_of, configured, default_config, described_by, in_agents_block,
    inline_names, is_agents_header, is_item, is_quoted, item_name, last_inline_agents,
    lemma_keys_differ, lemma_set_by, line_config, names_of, setting, significant, uncommented,
    unquoted, ConfigView,
};
use crate::json::JsonView;
use crate::laws::texts::{
    is_blank, is_tight, law_split_once_finds, law_split_once_parts, law_trim_gives_back,
};
use crate::text::{
    is_white_space, lemma_position_is_first, lemma_split_concat, lemma_trim_chars,
    lemma_trim_lower, lemma_trim_push, lemma_trim_tight, lemma_trim_twice, lower_of, split_of,
    split_once_of, trim_of,
};

verus! {

/// Whether a line says nothing: it is blank or a comment.
pub open spec fn says_nothing(line: Seq<char>) -> bool {
    trim_of(line).len() == 0 || trim_of(line)[0] == '#'
}

proof fn lemma_significant_concat(a: Seq<Seq<char>>, b: Seq<Seq<char>>)
    ensures
        significant(a + b) == significant(a) + significant(b),
    decreases b.len(),
{
    if b.len() == 0 {
        assert(a + b =~= a);
        assert(significant(a) + significant(b) =~= significant(a));
    } else {
        assert((a + b).drop_last() =~= a + b.drop_last());
        lemma_significant_concat(a, b.drop_last());
        assert(significant(a + b) =~= significant(a) + significant(b));
    }
}

/// What a single line adds to the lines that say something.
proof fn lemma_significant_push(before: Seq<Seq<char>>, line: Seq<char>)
    ensures
        significant(before.push(line)) == if says_nothing(line) {
            significant(before)
        } else {
            significant(before).push(trim_of(line))
        },
{
    assert(before.push(line).drop_last() =~= before);
}

/// The lines that say something, with one line in the middle picked out.
proof fn lemma_significant_around(
    before: Seq<Seq<char>>,
    line: Seq<char>,
    behind: Seq<Seq<char>>,
)
    ensures
        significant(before + seq![line] + behind) == significant(before.push(line)) + significant(
            behind,
        ),
{
    assert(before + seq![line] =~= before.push(line));
    lemma_significant_concat(before.push(line), behind);
}

/// The key of a line begins as the line does.
proof fn lemma_key_start(line: Seq<char>)
    requires
        line.len() > 0,
        !is_white_space(line[0]),
    ensures
        split_once_of(line, ':') matches Some((key, _)) ==> trim_of(key).len() == 0 || trim_of(
            key,
        )[0] == line[0],
{
    if let Some((key, _)) = split_once_of(line, ':') {
        lemma_position_is_first(line, ':');
        lemma_trim_chars(key);
        if key.len() > 0 {
            assert(key[0] == line[0]);
        } else {
            assert(trim_of(key) =~= Seq::empty());
        }
    }
}

/// An item of a list sets no field and is no header, and neither is a comment.
proof fn lemma_key_lines(line: Seq<char>)
    ensures
        is_item(trim_of(line)) ==> !says_nothing(line) && sets_nothing(trim_of(line))
            && !is_agents_header(trim_of(line)),
        says_nothing(line) ==> sets_nothing(trim_of(line)) && !is_agents_header(trim_of(line)),
{
    let t = trim_of(line);
    reveal_strlit("- ");
    reveal_strlit("enabled");
    reveal_strlit("endpoint");
    reveal_strlit("store");
    reveal_strlit("agents");
    reveal_strlit("default_environment");
    reveal_strlit("route_all_models");
    assert("enabled"@.len() > 0 && "enabled"@[0] == 'e');
    assert("endpoint"@.len() > 0 && "endpoint"@[0] == 'e');
    assert("store"@.len() > 0 && "store"@[0] == 's');
    assert("agents"@.len() > 0 && "agents"@[0] == 'a');
    assert("default_environment"@.len() > 0 && "default_environment"@[0] == 'd');
    assert("route_all_models"@.len() > 0 && "route_all_models"@[0] == 'r');
    lemma_trim_chars(line);
    if t.len() > 0 {
        lemma_key_start(t);
        if is_item(t) {
            assert(t.take(2)[0] == "- "@[0]);
            assert(t[0] == '-');
        }
    } else {
        lemma_position_is_first(t, ':');
    }
}

/// The lines of two texts with a line feed between them are those of the one and of the other.
pub proof fn law_lines_of_joined_texts(a: Seq<char>, b: Seq<char>)
    ensures
        split_of(a + seq!['\n'] + b, '\n') == split_of(a, '\n') + split_of(b, '\n'),
        config_of(a + seq!['\n'] + b) == described_by(split_of(a, '\n') + split_of(b, '\n')),
{
    lemma_split_concat(a, '\n', b);
}

/// Where no line says anything, every field has its default.
pub proof fn law_nothing_set(lines: Seq<Seq<char>>)
    requires
        forall|i: int| 0 <= i < lines.len() ==> says_nothing(#[trigger] lines[i]),
    ensures
        described_by(lines) == default_config(),
    decreases lines.len(),
{
    if lines.len() > 0 {
        assert(says_nothing(lines[lines.len() - 1]));
        law_nothing_set(lines.drop_last());
        assert(lines.drop_last().push(lines.last()) =~= lines);
        lemma_significant_push(lines.drop_last(), lines.last());
    } else {
        assert(described_by(lines) =~= default_config());
    }
}

/// Blank lines and comments do not matter, wherever they stand.
pub proof fn law_comments_ignored(
    before: Seq<Seq<char>>,
    line: Seq<char>,
    behind: Seq<Seq<char>>,
)
    requires
        says_nothing(line),
    ensures
        described_by(before + seq![line] + behind) == described_by(before + behind),
{
    lemma_significant_around(before, line, behind);
    lemma_significant_push(before, line);
    lemma_significant_concat(before, behind);
}

/// White space around a line does not matter, wherever it stands: neither its indent nor what
/// trails it.
pub proof fn law_indent_ignored(
    before: Seq<Seq<char>>,
    line: Seq<char>,
    behind: Seq<Seq<char>>,
)
    ensures
        described_by(before + seq![line] + behind) == described_by(
            before + seq![trim_of(line)] + behind,
        ),
{
    lemma_trim_twice(line);
    lemma_significant_around(before, line, behind);
    lemma_significant_around(before, trim_of(line), behind);
    lemma_significant_push(before, line);
    lemma_significant_push(before, trim_of(line));
}

/// It does not matter whether a line ends in a carriage return.
pub proof fn law_carriage_returns_ignored(
    before: Seq<Seq<char>>,
    line: Seq<char>,
    behind: Seq<Seq<char>>,
)
    ensures
        described_by(before + seq![line.push('\r')] + behind) == described_by(
            before + seq![line] + behind,
        ),
{
    lemma_trim_push(line, '\r');
    lemma_significant_around(before, line, behind);
    lemma_significant_around(before, line.push('\r'), behind);
    lemma_significant_push(before, line);
    lemma_significant_push(before, line.push('\r'));
}

/// Whether a trimmed line sets no field.
pub open spec fn sets_nothing(line: Seq<char>) -> bool {
    setting(line) matches Some((key, _)) ==> {
        &&& key != "enabled"@
        &&& key != "endpoint"@
        &&& key != "store"@
        &&& key != "agents"@
        &&& key != "default_environment"@
        &&& key != "route_all_models"@
    }
}

/// A line that sets no field and stands outside a block list can be left out of the lines.
proof fn lemma_line_left_out(
    before: Seq<Seq<char>>,
    line: Seq<char>,
    behind: Seq<Seq<char>>,
)
    requires
        sets_nothing(line),
        !in_agents_block(before),
    ensures
        line_config(before.push(line) + behind) == line_config(before + behind),
        in_agents_block(before.push(line) + behind) == in_agents_block(before + behind),
        block_names(before.push(line) + behind) == block_names(before + behind),
        last_inline_agents(before.push(line) + behind) == last_inline_agents(before + behind),
    decreases behind.len(),
{
    if behind.len() == 0 {
        assert(before.push(line) + behind =~= before.push(line));
        assert(before + behind =~= before);
        assert(before.push(line).drop_last() =~= before);
        lemma_set_by(before, line);
    } else {
        let rest = behind.drop_last();
        let last = behind.last();
        lemma_line_left_out(before, line, rest);
        assert(before.push(line) + behind =~= (before.push(line) + rest).push(last));
        assert(before + behind =~= (before + rest).push(last));
        assert((before.push(line) + rest).push(last).drop_last() =~= before.push(line) + rest);
        assert((before + rest).push(last).drop_last() =~= before + rest);
        lemma_set_by(before.push(line) + rest, last);
        lemma_set_by(before + rest, last);
    }
}

/// A field that the plugin does not know, such as one that the host looks after, is passed
/// over; so is a line without a colon. (Inside a block list such a line would end the list.)
pub proof fn law_unknown_fields_ignored(
    before: Seq<Seq<char>>,
    line: Seq<char>,
    behind: Seq<Seq<char>>,
)
    requires
        sets_nothing(trim_of(line)),
        !in_agents_block(significant(before)),
    ensures
        described_by(before + seq![line] + behind) == described_by(before + behind),
{
    lemma_significant_around(before, line, behind);
    lemma_significant_push(before, line);
    lemma_significant_concat(before, behind);
    if !says_nothing(line) {
        lemma_line_left_out(significant(before), trim_of(line), significant(behind));
    }
}

/// The last line has the last word: whatever stood before it, the field that it sets has the
/// value that it gives.
pub proof fn law_last_line_wins(
    before: Seq<Seq<char>>,
    line: Seq<char>,
    key: Seq<char>,
    value: Seq<char>,
)
    requires
        !says_nothing(line),
        setting(trim_of(line)) == Some((key, value)),
    ensures
        ({
            let config = described_by(before.push(line));
            &&& key == "enabled"@ ==> config.enabled == bool_value(value)
            &&& key == "endpoint"@ ==> config.endpoint == unquoted(value)
            &&& key == "store"@ ==> config.store == bool_value(value)
            &&& key == "default_environment"@ ==> config.default_environment == unquoted(value)
            &&& key == "route_all_models"@ ==> config.route_all_models == bool_value(value)
        }),
{
    lemma_significant_push(before, line);
    lemma_keys_differ();
    lemma_set_by(significant(before), trim_of(line));
}

/// A line that sets one field leaves the others as they were.
pub proof fn law_other_fields_kept(
    before: Seq<Seq<char>>,
    line: Seq<char>,
    key: Seq<char>,
    value: Seq<char>,
)
    requires
        !says_nothing(line),
        setting(trim_of(line)) == Some((key, value)),
    ensures
        ({
            let old_config = described_by(before);
            let config = described_by(before.push(line));
            &&& key != "enabled"@ ==> config.enabled == old_config.enabled
            &&& key != "endpoint"@ ==> config.endpoint == old_config.endpoint
            &&& key != "store"@ ==> config.store == old_config.store
            &&& key != "default_environment"@ ==> config.default_environment
                == old_config.default_environment
            &&& key != "route_all_models"@ ==> config.route_all_models
                == old_config.route_all_models
            &&& (key != "agents"@ || unquoted(value).len() == 0) && !is_item(trim_of(line))
                ==> config.agents == old_config.agents
        }),
{
    let lines = significant(before);
    lemma_significant_push(before, line);
    lemma_keys_differ();
    lemma_set_by(lines, trim_of(line));
    assert(lines.push(trim_of(line)).drop_last() =~= lines);
}

/// The names of the last inline list; none where there is none.
pub open spec fn inline_agents(lines: Seq<Seq<char>>) -> Seq<Seq<char>> {
    match last_inline_agents(lines) {
        Some(list) => inline_names(list),
        None => Seq::empty(),
    }
}

/// An item of a block list under `agents:` changes nothing but the agents: its name goes behind
/// those of the inline list and of the items before it. The default agents are no longer
/// agents. The next item belongs to the list too.
pub proof fn law_block_item_names_agent(before: Seq<Seq<char>>, line: Seq<char>)
    requires
        in_agents_block(significant(before)),
        is_item(trim_of(line)),
        item_name(trim_of(line)).len() > 0,
    ensures
        described_by(before.push(line)) == (ConfigView {
            agents: (inline_agents(significant(before)) + block_names(significant(before))).push(
                item_name(trim_of(line)),
            ),
            ..described_by(before)
        }),
        inline_agents(significant(before.push(line))) == inline_agents(significant(before)),
        block_names(significant(before.push(line))) == block_names(significant(before)).push(
            item_name(trim_of(line)),
        ),
        in_agents_block(significant(before.push(line))),
{
    let item = trim_of(line);
    let lines = significant(before);
    lemma_key_lines(line);
    lemma_significant_push(before, line);
    assert(lines.push(item).drop_last() =~= lines);
    lemma_set_by(lines, item);
    assert(last_inline_agents(lines.push(item)) == last_inline_agents(lines));
    assert(described_by(before.push(line)) =~= (ConfigView {
        agents: (inline_agents(lines) + block_names(lines)).push(item_name(item)),
        ..described_by(before)
    }));
}

/// The header `agents:` alone changes nothing, and the items behind it belong to its list.
pub proof fn law_block_header_opens_list(before: Seq<Seq<char>>, line: Seq<char>)
    requires
        is_agents_header(trim_of(line)),
    ensures
        described_by(before.push(line)) == described_by(before),
        inline_agents(significant(before.push(line))) == inline_agents(significant(before)),
        block_names(significant(before.push(line))) == block_names(significant(before)),
        in_agents_block(significant(before.push(line))),
{
    let header = trim_of(line);
    let lines = significant(before);
    lemma_key_lines(line);
    lemma_significant_push(before, line);
    assert(lines.push(header).drop_last() =~= lines);
    lemma_keys_differ();
    lemma_set_by(lines, header);
    assert(last_inline_agents(lines.push(header)) == last_inline_agents(lines));
    assert(described_by(before.push(line)) =~= described_by(before));
}

/// A list overrides the default agents, be it on the line of `agents:` or in a block behind it:
/// the agents are the names of the inline list and behind them those of the block lists. Where
/// nothing is listed they are the default ones.
pub proof fn law_listed_agents_override_defaults(lines: Seq<Seq<char>>)
    ensures
        ({
            let said = significant(lines);
            described_by(lines).agents == if last_inline_agents(said) is Some || block_names(
                said,
            ).len() > 0 {
                inline_agents(said) + block_names(said)
            } else {
                default_config().agents
            }
        }),
{
    let said = significant(lines);
    assert(Seq::<Seq<char>>::empty() + block_names(said) =~= block_names(said));
}

/// A list on the line of `agents:` takes the place of an earlier one and of the default agents;
/// the names of block lists stay behind it.
pub proof fn law_inline_list_replaces_agents(
    before: Seq<Seq<char>>,
    line: Seq<char>,
    value: Seq<char>,
)
    requires
        setting(trim_of(line)) == Some(("agents"@, value)),
        unquoted(value).len() > 0,
    ensures
        described_by(before.push(line)).agents == inline_names(unquoted(value)) + block_names(
            significant(before),
        ),
{
    let lines = significant(before);
    lemma_key_lines(line);
    lemma_significant_push(before, line);
    assert(lines.push(trim_of(line)).drop_last() =~= lines);
    lemma_keys_differ();
    lemma_set_by(lines, trim_of(line));
}

/// A text between two quotes of the same kind is taken as it stands, blanks and all.
pub proof fn law_quotes_taken_off(text: Seq<char>, quote: char)
    requires
        quote == '"' || quote == '\'',
    ensures
        unquoted(seq![quote] + text + seq![quote]) == text,
{
    let quoted = seq![quote] + text + seq![quote];
    assert(!is_white_space(quote));
    lemma_trim_tight(quoted);
    assert(is_quoted(quoted, quote));
    assert(quoted.subrange(1, quoted.len() - 1) =~= text);
}

/// Neither the case of a switch nor the white space around it matters.
pub proof fn law_switch_spelling(value: Seq<char>)
    ensures
        bool_value(lower_of(value)) == bool_value(value),
        bool_value(trim_of(value)) == bool_value(value),
{
    lemma_trim_lower(value);
    lemma_trim_twice(value);
}

/// A line is a setting if and only if it has a colon: the key is what stands before the first
/// one, the value what stands behind it.
pub proof fn law_setting_at_first_colon(before: Seq<char>, behind: Seq<char>, line: Seq<char>)
    ensures
        !before.contains(':') ==> setting(before + seq![':'] + behind) == Some(
            (trim_of(before), uncommented(trim_of(behind))),
        ),
        !line.contains(':') ==> setting(line) is None,
{
    if !before.contains(':') {
        law_split_once_finds(before, ':', behind);
    }
    law_split_once_parts(line, ':');
}

/// A value ends where the first comment begins; one without a comment is taken whole.
pub proof fn law_comment_cut_off(value: Seq<char>, comment: Seq<char>)
    requires
        !value.contains('#'),
    ensures
        uncommented(value) == value,
        uncommented(value + seq!['#'] + comment) == trim_of(value),
{
    law_split_once_parts(value, '#');
    law_split_once_finds(value, '#', comment);
}

/// A key and a value with a colon between them, with or without blanks around each and a
/// comment behind them, are read as that key and that value, whole: colons in the value are
/// part of it.
pub proof fn law_setting_line(
    indent: Seq<char>,
    key: Seq<char>,
    gap: Seq<char>,
    space: Seq<char>,
    value: Seq<char>,
    trail: Seq<char>,
    comment: Seq<char>,
)
    requires
        is_blank(indent),
        is_blank(gap),
        is_blank(space),
        is_blank(trail),
        key.len() > 0,
        is_tight(key),
        !key.contains(':'),
        is_tight(value),
        !value.contains('#'),
    ensures
        setting(trim_of(indent + key + gap + seq![':'] + space + value + trail)) == Some(
            (key, value),
        ),
        is_tight(comment) ==> setting(
            trim_of(indent + key + gap + seq![':'] + space + value + trail + seq!['#'] + comment),
        ) == Some((key, value)),
{
    let none = Seq::<char>::empty();
    let head = key + gap;
    assert(is_blank(none));
    assert forall|i: int| 0 <= i < head.len() implies head[i] != ':' by {
        if i < key.len() {
            assert(key.contains(key[i]));
        } else {
            assert(is_white_space(gap[i - key.len()]));
        }
    }
    assert(!head.contains(':'));
    law_trim_gives_back(none, key, gap);
    assert(none + key + gap =~= head);
    // Without a comment.
    let bare = if value.len() > 0 {
        space + value
    } else {
        none
    };
    let line = head + seq![':'] + bare;
    assert(line.len() > 0);
    assert(line[0] == key[0]);
    assert(is_tight(line)) by {
        if value.len() > 0 {
            assert(line[line.len() - 1] == value[value.len() - 1]);
        } else {
            assert(line[line.len() - 1] == ':');
        }
    }
    let rest = if value.len() > 0 {
        trail
    } else {
        space + trail
    };
    assert(is_blank(rest));
    law_trim_gives_back(indent, line, rest);
    assert(indent + key + gap + seq![':'] + space + value + trail =~= indent + line + rest);
    law_setting_at_first_colon(head, bare, line);
    law_trim_gives_back(space, value, none);
    assert(space + value + none =~= space + value);
    if value.len() == 0 {
        law_trim_gives_back(none, none, none);
        assert(none + none + none =~= none);
        assert(value =~= none);
    }
    law_comment_cut_off(value, comment);
    // With one.
    if is_tight(comment) {
        let mark = value + trail + seq!['#'] + comment;
        let noted = head + seq![':'] + space + mark;
        assert(noted[0] == key[0]);
        assert(is_tight(noted)) by {
            if comment.len() > 0 {
                assert(noted[noted.len() - 1] == comment[comment.len() - 1]);
            } else {
                assert(noted[noted.len() - 1] == '#');
            }
        }
        law_trim_gives_back(indent, noted, none);
        assert(indent + key + gap + seq![':'] + space + value + trail + seq!['#'] + comment
            =~= indent + noted + none);
        law_setting_at_first_colon(head, space + mark, noted);
        assert(noted =~= head + seq![':'] + (space + mark));
        let start = if value.len() > 0 {
            mark
        } else {
            seq!['#'] + comment
        };
        let lead = if value.len() > 0 {
            space
        } else {
            space + trail
        };
        assert(is_blank(lead));
        assert(is_tight(start)) by {
            if value.len() > 0 {
                assert(start[0] == value[0]);
            } else {
                assert(start[0] == '#');
            }
            if comment.len() > 0 {
                assert(start[start.len() - 1] == comment[comment.len() - 1]);
            } else {
                assert(start[start.len() - 1] == '#');
            }
        }
        law_trim_gives_back(lead, start, none);
        assert(space + mark =~= lead + start + none);
        let said = if value.len() > 0 {
            value + trail
        } else {
            none
        };
        assert forall|i: int| 0 <= i < said.len() implies said[i] != '#' by {
            if i < value.len() {
                assert(value.contains(value[i]));
            } else {
                assert(is_white_space(trail[i - value.len()]));
            }
        }
        assert(!said.contains('#'));
        assert(start =~= said + seq!['#'] + comment);
        law_comment_cut_off(said, comment);
        law_trim_gives_back(none, value, trail);
        assert(none + value + trail =~= value + trail);
    }
}

/// The endpoint is taken whole, whatever stood before it: any address without a `#`, be it bare
/// or between quotes.
pub proof fn law_endpoint_taken_whole(before: Seq<Seq<char>>, url: Seq<char>, quote: char)
    requires
        !url.contains('#'),
    ensures
        url.len() > 0 && is_tight(url) && url[0] != '"' && url[0] != '\'' ==> described_by(
            before.push("endpoint: "@ + url),
        ).endpoint == url,
        quote == '"' || quote == '\'' ==> described_by(
            before.push("endpoint: "@ + seq![quote] + url + seq![quote]),
        ).endpoint == url,
{
    reveal_strlit("endpoint: ");
    reveal_strlit("endpoint");
    let none = Seq::<char>::empty();
    let key = "endpoint"@;
    let space = seq![' '];
    assert(key.len() == 8 && key[0] == 'e' && key[7] == 't');
    assert forall|i: int| 0 <= i < key.len() implies key[i] != ':' by {}
    assert(!key.contains(':'));
    assert(is_blank(none));
    assert(is_blank(space));
    assert("endpoint: "@ =~= key + seq![':'] + space);
    if url.len() > 0 && is_tight(url) && url[0] != '"' && url[0] != '\'' {
        let line = "endpoint: "@ + url;
        law_setting_line(none, key, none, space, url, none, none);
        assert(none + key + none + seq![':'] + space + url + none =~= line);
        lemma_says_something(line);
        law_last_line_wins(before, line, key, url);
        law_bare_text_kept(none, url, none);
        assert(none + url + none =~= url);
    }
    if quote == '"' || quote == '\'' {
        let value = seq![quote] + url + seq![quote];
        let line = "endpoint: "@ + seq![quote] + url + seq![quote];
        assert(value[0] == quote && value[value.len() - 1] == quote);
        assert forall|i: int| 0 <= i < value.len() implies value[i] != '#' by {
            if 0 < i < value.len() - 1 {
                assert(value[i] == url[i - 1]);
                assert(url.contains(url[i - 1]));
            }
        }
        assert(!value.contains('#'));
        law_setting_line(none, key, none, space, value, none, none);
        assert(none + key + none + seq![':'] + space + value + none =~= line);
        lemma_says_something(line);
        law_last_line_wins(before, line, key, value);
        law_quotes_taken_off(url, quote);
    }
}

/// A line that begins with a letter says something.
proof fn lemma_says_something(line: Seq<char>)
    requires
        line.len() > 0,
        line[0] == 'e',
    ensures
        !says_nothing(line),
{
    lemma_trim_chars(line);
}

/// A text that is not between quotes is taken as it stands, without the blanks around it.
pub proof fn law_bare_text_kept(before: Seq<char>, text: Seq<char>, behind: Seq<char>)
    requires
        is_blank(before),
        is_blank(behind),
        is_tight(text),
        text.len() < 2 || text[0] != text[text.len() - 1] || (text[0] != '"' && text[0] != '\''),
    ensures
        unquoted(before + text + behind) == text,
{
    law_trim_gives_back(before, text, behind);
}

/// Blanks around quotes do not matter.
pub proof fn law_blanks_around_quotes(text: Seq<char>)
    ensures
        unquoted(trim_of(text)) == unquoted(text),
{
    lemma_trim_twice(text);
}

/// A switch is on if and only if it says `true`, `yes`, `on` or `1`, in letters of any size and
/// with any blanks around it.
pub proof fn law_switch_words(before: Seq<char>, word: Seq<char>, behind: Seq<char>)
    requires
        is_blank(before),
        is_blank(behind),
        is_tight(word),
    ensures
        bool_value(before + word + behind) <==> (lower_of(word) == "true"@ || lower_of(word)
            == "yes"@ || lower_of(word) == "on"@ || lower_of(word) == "1"@),
{
    law_trim_gives_back(before, word, behind);
}

/// A line is an item if and only if it begins with a dash and a blank; its name is what stands
/// behind them, without blanks and quotes.
pub proof fn law_item_lines(line: Seq<char>, rest: Seq<char>)
    ensures
        is_item(line) <==> line.len() >= 2 && line[0] == '-' && line[1] == ' ',
        is_item(seq!['-', ' '] + rest),
        item_name(seq!['-', ' '] + rest) == unquoted(rest),
{
    reveal_strlit("- ");
    assert("- "@ =~= seq!['-', ' ']);
    if line.len() >= 2 && line[0] == '-' && line[1] == ' ' {
        assert(line.take(2) =~= "- "@);
    }
    if is_item(line) {
        assert(line.take(2)[0] == '-' && line.take(2)[1] == ' ');
    }
    let item = seq!['-', ' '] + rest;
    assert(item.take(2) =~= "- "@);
    assert(item.skip(2) =~= rest);
    lemma_trim_twice(rest);
}

/// A line opens a block list if and only if it is `agents`, a colon and nothing more, blanks
/// aside.
pub proof fn law_header_lines(before: Seq<char>, behind: Seq<char>, line: Seq<char>)
    ensures
        !before.contains(':') ==> (is_agents_header(before + seq![':'] + behind) <==> trim_of(
            before,
        ) == "agents"@ && trim_of(behind).len() == 0),
        !line.contains(':') ==> !is_agents_header(line),
{
    if !before.contains(':') {
        law_split_once_finds(before, ':', behind);
    }
    law_split_once_parts(line, ':');
}

/// The names of two stretches of a list, one behind the other, are those of the one and of the
/// other.
pub proof fn law_names_concat(a: Seq<Seq<char>>, b: Seq<Seq<char>>)
    ensures
        names_of(a + b) == names_of(a) + names_of(b),
    decreases b.len(),
{
    if b.len() == 0 {
        assert(a + b =~= a);
        assert(names_of(a) + names_of(b) =~= names_of(a));
    } else {
        assert((a + b).drop_last() =~= a + b.drop_last());
        law_names_concat(a, b.drop_last());
        assert(names_of(a + b) =~= names_of(a) + names_of(b));
    }
}

/// A piece of a list is a name, without blanks and quotes, unless nothing is left of it.
pub proof fn law_single_name(piece: Seq<char>)
    ensures
        unquoted(piece).len() > 0 ==> names_of(seq![piece]) == seq![unquoted(piece)],
        unquoted(piece).len() == 0 ==> names_of(seq![piece]).len() == 0,
        names_of(Seq::empty()).len() == 0,
{
    lemma_trim_twice(piece);
    assert(seq![piece].drop_last() =~= Seq::empty());
    assert(names_of(seq![piece].drop_last()) =~= Seq::empty());
}

/// The names of a list stand between commas; brackets around the list do not matter.
pub proof fn law_inline_list(list: Seq<char>)
    ensures
        inline_names(seq!['['] + list + seq![']']) == names_of(split_of(list, ',')),
        list.len() < 2 || list[0] != '[' || list[list.len() - 1] != ']' ==> inline_names(list)
            == names_of(split_of(list, ',')),
{
    let bracketed = seq!['['] + list + seq![']'];
    assert(bracketed.subrange(1, bracketed.len() - 1) =~= list);
}

/// A line that says something, is no item and opens no list, ends the list that it stands in.
/// It keeps the names of block lists, and replaces those of the inline list if and only if it
/// is one.
pub proof fn law_other_line_closes_list(before: Seq<Seq<char>>, line: Seq<char>, value: Seq<char>)
    requires
        !says_nothing(line),
        !is_item(trim_of(line)),
        !is_agents_header(trim_of(line)),
    ensures
        !in_agents_block(significant(before.push(line))),
        block_names(significant(before.push(line))) == block_names(significant(before)),
        setting(trim_of(line)) == Some(("agents"@, value)) && unquoted(value).len() > 0
            ==> inline_agents(significant(before.push(line))) == inline_names(unquoted(value)),
        !(setting(trim_of(line)) matches Some((key, found)) && key == "agents"@ && unquoted(
            found,
        ).len() > 0) ==> inline_agents(significant(before.push(line))) == inline_agents(
            significant(before),
        ),
{
    let lines = significant(before);
    lemma_significant_push(before, line);
    assert(lines.push(trim_of(line)).drop_last() =~= lines);
}

/// An item outside a list, and one without a name in a list, name no agent; whether the next
/// line stands in a list stays as it was. So does everything at a line that says nothing.
pub proof fn law_line_without_effect(before: Seq<Seq<char>>, line: Seq<char>)
    requires
        says_nothing(line) || (is_item(trim_of(line)) && (!in_agents_block(significant(before))
            || item_name(trim_of(line)).len() == 0)),
    ensures
        described_by(before.push(line)) == described_by(before),
        in_agents_block(significant(before.push(line))) == in_agents_block(significant(before)),
        block_names(significant(before.push(line))) == block_names(significant(before)),
        inline_agents(significant(before.push(line))) == inline_agents(significant(before)),
{
    let lines = significant(before);
    lemma_key_lines(line);
    lemma_significant_push(before, line);
    if !says_nothing(line) {
        let item = trim_of(line);
        assert(lines.push(item).drop_last() =~= lines);
        lemma_set_by(lines, item);
        assert(last_inline_agents(lines.push(item)) == last_inline_agents(lines));
        assert(described_by(before.push(line)) =~= described_by(before));
    }
}

/// A line that sets no field keeps them all.
pub proof fn law_line_without_setting(before: Seq<Seq<char>>, line: Seq<char>)
    requires
        setting(trim_of(line)) is None,
        !is_item(trim_of(line)),
    ensures
        described_by(before.push(line)) == described_by(before),
{
    let lines = significant(before);
    lemma_significant_push(before, line);
    if !says_nothing(line) {
        assert(lines.push(trim_of(line)).drop_last() =~= lines);
        lemma_set_by(lines, trim_of(line));
        assert(described_by(before.push(line)) =~= described_by(before));
    }
}

/// A text is read by its lines, and a lifecycle request by its text: one without a text, or
/// with no text at all, sets every field to its default.
pub proof fn law_lifecycle_text(config: ConfigView, raw: Seq<u8>, req: JsonView, text: Seq<char>)
    requires
        raw.len() > 0,
    ensures
        config_of(text) == described_by(split_of(text, '\n')),
        json_parse(raw) == Ok::<JsonView, Seq<char>>(req) && req.get("config_yaml"@) == Some(
            JsonView::Str(text),
        ) ==> configured(config, raw) == Ok::<ConfigView, Seq<char>>(config_of(text)),
        json_parse(raw) == Ok::<JsonView, Seq<char>>(req) && req.str_at("config_yaml"@) is None
            ==> configured(config, raw) == Ok::<ConfigView, Seq<char>>(default_config()),
        json_parse(raw) == Err::<JsonView, Seq<char>>(text) ==> configured(config, raw) == Err::<
            ConfigView,
            Seq<char>,
        >("decode lifecycle request: "@ + text),
{
    let nothing = Seq::<char>::empty();
    law_split_once_parts(nothing, '\n');
    let lines = split_of(nothing, '\n');
    assert(lines =~= seq![nothing]);
    lemma_trim_chars(nothing);
    assert(trim_of(nothing).len() == 0) by {
        if trim_of(nothing).len() > 0 {
            assert(nothing.contains(trim_of(nothing)[0]));
        }
    }
    law_nothing_set(lines);
}

} // verus!
