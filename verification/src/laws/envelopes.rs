//! Laws of the envelopes: what a reader of JSON makes of them.
use vstd::prelude::*;
use vstd::utf8::*;

use crate::answer::{comes_through, completion_envelope, event_stream, stream_envelope};
use crate::codec::{base64_text, has_no_breaks, json_text};
use crate::envelope::{
    error_envelope_of, escape_char, escaped, lemma_escaped_plain, ok_envelope,
};
use crate::executor::text_array_of;
use crate::json::{lemma_entries_map_absent, lemma_entries_map_at, object_of, JsonView};
use crate::laws::reader::{
    is_clean, lemma_bool_reads, lemma_clean_shown, lemma_one_item_reads, lemma_one_member_reads,
    lemma_read_string, lemma_string_reads, lemma_two_members_read, lemma_whole_text,
    one_item_text, one_member_text, read_document, read_string, reads_as, shown, shown_char,
    string_text, two_member_text,
};
use crate::text::{is_control, lemma_split_concat, lemma_split_none, split_of};

verus! {

/// What is escaped can be read back: any text, put between the quotes of a JSON string, is a
/// string that a reader takes for that text, but for the control characters that have become
/// blanks.
pub proof fn law_escape_reads_back(s: Seq<char>, tail: Seq<char>)
    ensures
        read_string(escaped(s) + seq!['"'] + tail) == Some((shown(s), tail)),
        is_clean(s) ==> read_string(escaped(s) + seq!['"'] + tail) == Some((s, tail)),
{
    lemma_read_string(s, tail);
    if is_clean(s) {
        lemma_clean_shown(s);
    }
}

/// The escaped text of two texts, one behind the other, is that of the one and of the other.
pub proof fn law_escape_concat(a: Seq<char>, b: Seq<char>)
    ensures
        escaped(a + b) == escaped(a) + escaped(b),
    decreases a.len(),
{
    if a.len() == 0 {
        assert(a + b =~= b);
        assert(escaped(a) + escaped(b) =~= escaped(b));
    } else {
        assert((a + b).drop_first() =~= a.drop_first() + b);
        law_escape_concat(a.drop_first(), b);
        assert(escaped(a + b) =~= escaped(a) + escaped(b));
    }
}

/// Whether every character of a text stands for itself inside a JSON string.
pub open spec fn needs_no_escape(s: Seq<char>) -> bool {
    forall|i: int|
        0 <= i < s.len() ==> #[trigger] s[i] != '"' && s[i] != '\\' && !is_control(s[i])
}

/// A text without quotes, backslashes and control characters is left as it is.
pub proof fn law_plain_text_kept(s: Seq<char>)
    requires
        needs_no_escape(s),
    ensures
        escaped(s) == s,
        is_clean(s),
        string_text(s) == seq!['"'] + s + seq!['"'],
{
    lemma_escaped_plain(s);
    assert forall|i: int| 0 <= i < s.len() implies shown_char(
        #[trigger] s[i],
    ) == s[i] by {
        assert(s[i] != '"');
    }
}

/// The document in the envelope of an error.
pub open spec fn error_document(code: Seq<char>, message: Seq<char>) -> JsonView {
    object_of(
        seq![
            ("ok"@, JsonView::Bool(false)),
            (
                "error"@,
                object_of(
                    seq![("code"@, JsonView::Str(code)), ("message"@, JsonView::Str(message))],
                ),
            ),
        ],
    )
}

/// The document in the envelope of a result.
pub open spec fn result_document(result: JsonView) -> JsonView {
    object_of(seq![("ok"@, JsonView::Bool(true)), ("result"@, result)])
}

/// The envelope of an error is JSON text: whatever the code and the message hold, a reader finds
/// them in it, but for the control characters that have become blanks.
pub proof fn law_error_envelope_is_json(code: Seq<char>, message: Seq<char>)
    ensures
        read_document(error_envelope_of(code, message)) == Some(
            error_document(shown(code), shown(message)),
        ),
        is_clean(code) && is_clean(message) ==> read_document(error_envelope_of(code, message))
            == Some(error_document(code, message)),
{
    reveal_strlit("ok");
    reveal_strlit("error");
    reveal_strlit("code");
    reveal_strlit("message");
    reveal_strlit("false");
    reveal_strlit("{\"ok\":false,\"error\":{\"code\":\"");
    reveal_strlit("\",\"message\":\"");
    reveal_strlit("\"}}");
    law_plain_text_kept("ok"@);
    law_plain_text_kept("error"@);
    law_plain_text_kept("code"@);
    law_plain_text_kept("message"@);
    lemma_bool_reads();
    lemma_string_reads(code);
    lemma_string_reads(message);
    let inner = two_member_text("code"@, string_text(code), "message"@, string_text(message));
    lemma_two_members_read(
        "code"@,
        string_text(code),
        JsonView::Str(shown(code)),
        "message"@,
        string_text(message),
        JsonView::Str(shown(message)),
        0,
    );
    let error = object_of(
        seq![("code"@, JsonView::Str(shown(code))), ("message"@, JsonView::Str(shown(message)))],
    );
    lemma_two_members_read(
        "ok"@,
        "false"@,
        JsonView::Bool(false),
        "error"@,
        inner,
        error,
        1,
    );
    let outer = two_member_text("ok"@, "false"@, "error"@, inner);
    assert(error_envelope_of(code, message) =~= outer);
    lemma_whole_text(outer, error_document(shown(code), shown(message)), 2);
    if is_clean(code) && is_clean(message) {
        lemma_clean_shown(code);
        lemma_clean_shown(message);
    }
}

/// The document in the envelope of an error has these members and no others: `ok`, which is
/// false, and `error` with its `code` and its `message`.
pub proof fn law_error_document_members(code: Seq<char>, message: Seq<char>, key: Seq<char>)
    ensures
        ({
            let document = error_document(code, message);
            &&& document.get("ok"@) == Some(JsonView::Bool(false))
            &&& document.get("error"@) matches Some(error) && {
                &&& error.get("code"@) == Some(JsonView::Str(code))
                &&& error.get("message"@) == Some(JsonView::Str(message))
                &&& key != "code"@ && key != "message"@ ==> error.get(key) is None
            }
            &&& key != "ok"@ && key != "error"@ ==> document.get(key) is None
        }),
{
    reveal_strlit("ok");
    reveal_strlit("error");
    reveal_strlit("code");
    reveal_strlit("message");
    assert("ok"@.len() == 2);
    assert("error"@.len() == 5);
    assert("code"@.len() == 4);
    assert("message"@.len() == 7);
    let inner = seq![("code"@, JsonView::Str(code)), ("message"@, JsonView::Str(message))];
    let outer = seq![("ok"@, JsonView::Bool(false)), ("error"@, object_of(inner))];
    lemma_entries_map_at(inner, 0);
    lemma_entries_map_at(inner, 1);
    lemma_entries_map_at(outer, 0);
    lemma_entries_map_at(outer, 1);
    if key != "code"@ && key != "message"@ {
        lemma_entries_map_absent(inner, key);
    }
    if key != "ok"@ && key != "error"@ {
        lemma_entries_map_absent(outer, key);
    }
}

/// The envelope of a result that is JSON text is JSON text: a reader finds the result in it.
pub proof fn law_result_envelope_is_json(result: Seq<char>, json: JsonView, levels: nat)
    requires
        reads_as(result, json, levels),
    ensures
        reads_as(ok_envelope(result), result_document(json), levels + 1),
{
    reveal_strlit("ok");
    reveal_strlit("result");
    reveal_strlit("true");
    reveal_strlit("{\"ok\":true,\"result\":");
    reveal_strlit("}");
    law_plain_text_kept("ok"@);
    law_plain_text_kept("result"@);
    lemma_bool_reads();
    lemma_two_members_read("ok"@, "true"@, JsonView::Bool(true), "result"@, result, json, levels);
    assert(ok_envelope(result) =~= two_member_text("ok"@, "true"@, "result"@, result));
}

/// A result stands in its envelope whole, and the envelopes of any two results differ in nothing
/// but the results.
pub proof fn law_result_stands_whole(a: Seq<char>, b: Seq<char>)
    ensures
        ok_envelope(a) == ok_envelope(Seq::empty()).drop_last() + a + seq!['}'],
        ok_envelope(a).len() == 21 + a.len(),
        ok_envelope(a) == ok_envelope(b) <==> a == b,
{
    reveal_strlit("{\"ok\":true,\"result\":");
    reveal_strlit("}");
    let head = ok_envelope(Seq::empty()).drop_last();
    assert(head.len() == 20);
    assert(ok_envelope(a) =~= head + a + seq!['}']);
    assert(ok_envelope(b) =~= head + b + seq!['}']);
    assert(ok_envelope(a).subrange(20, ok_envelope(a).len() - 1) =~= a);
    assert(ok_envelope(b).subrange(20, ok_envelope(b).len() - 1) =~= b);
}

/// Headers with a content type.
pub open spec fn headers_of(content_type: Seq<char>) -> JsonView {
    object_of(seq![("content-type"@, text_array_of(content_type))])
}

proof fn lemma_headers_read(content_type: Seq<char>)
    requires
        needs_no_escape(content_type),
    ensures
        needs_no_escape("content-type"@),
        reads_as(
            one_member_text("content-type"@, one_item_text(string_text(content_type))),
            headers_of(content_type),
            2,
        ),
{
    reveal_strlit("content-type");
    law_plain_text_kept("content-type"@);
    law_plain_text_kept(content_type);
    lemma_string_reads(content_type);
    lemma_clean_shown(content_type);
    lemma_one_item_reads(string_text(content_type), JsonView::Str(content_type), 0);
    lemma_one_member_reads(
        "content-type"@,
        one_item_text(string_text(content_type)),
        text_array_of(content_type),
        1,
    );
}

/// The envelope of an answer in one piece is JSON text: a reader finds the payload in it, and
/// the header that says what the payload is. (That the payload comes through is what
/// `build_executor_response` promises of it.)
pub proof fn law_completion_envelope_is_json(completion: JsonView)
    requires
        comes_through(encode_utf8(json_text(completion))),
    ensures
        read_document(completion_envelope(completion)) == Some(
            result_document(
                object_of(
                    seq![
                        (
                            "Payload"@,
                            JsonView::Str(base64_text(encode_utf8(json_text(completion)))),
                        ),
                        ("Headers"@, headers_of("application/json"@)),
                    ],
                ),
            ),
        ),
{
    let payload = base64_text(encode_utf8(json_text(completion)));
    reveal_strlit("Payload");
    reveal_strlit("Headers");
    reveal_strlit("content-type");
    reveal_strlit("application/json");
    reveal_strlit("{\"Payload\":\"");
    reveal_strlit("\",\"Headers\":{\"content-type\":[\"application/json\"]}}");
    law_plain_text_kept("Payload"@);
    law_plain_text_kept("Headers"@);
    law_plain_text_kept("content-type"@);
    law_plain_text_kept("application/json"@);
    lemma_string_reads(payload);
    lemma_kept_is_shown(payload);
    lemma_headers_read("application/json"@);
    let headers = one_member_text(
        "content-type"@,
        one_item_text(string_text("application/json"@)),
    );
    lemma_two_members_read(
        "Payload"@,
        string_text(payload),
        JsonView::Str(payload),
        "Headers"@,
        headers,
        headers_of("application/json"@),
        2,
    );
    let result = two_member_text("Payload"@, string_text(payload), "Headers"@, headers);
    let json = object_of(
        seq![
            ("Payload"@, JsonView::Str(payload)),
            ("Headers"@, headers_of("application/json"@)),
        ],
    );
    assert(result =~= "{\"Payload\":\""@ + payload
        + "\",\"Headers\":{\"content-type\":[\"application/json\"]}}"@);
    law_result_envelope_is_json(result, json, 3);
    lemma_whole_text(ok_envelope(result), result_document(json), 4);
}

/// A text that escaping leaves as it is comes out as it went in.
proof fn lemma_kept_is_shown(s: Seq<char>)
    requires
        escaped(s) == s,
    ensures
        shown(s) == s,
    decreases s.len(),
{
    if s.len() > 0 {
        let head = escape_char(s[0]);
        let rest = escaped(s.drop_first());
        lemma_escaped_longer(s.drop_first());
        assert(escaped(s) == head + rest);
        assert(head.len() == 1);
        assert(head[0] == s[0]) by {
            assert((head + rest)[0] == head[0]);
        }
        assert(s.drop_first() =~= rest) by {
            assert((head + rest).drop_first() =~= rest);
        }
        lemma_kept_is_shown(s.drop_first());
        assert(shown(s) =~= seq![s[0]] + shown(s.drop_first()));
        assert(seq![s[0]] + s.drop_first() =~= s);
    } else {
        assert(shown(s) =~= s);
    }
}

proof fn lemma_escaped_longer(s: Seq<char>)
    ensures
        escaped(s).len() >= s.len(),
    decreases s.len(),
{
    if s.len() > 0 {
        lemma_escaped_longer(s.drop_first());
    }
}

/// The envelope of an answer as a stream is JSON text: a reader finds the only chunk in it, and
/// the header that says what the chunk is. (That the payload comes through is what
/// `build_stream_executor_response` promises of it.)
pub proof fn law_stream_envelope_is_json(chunk: JsonView)
    requires
        comes_through(encode_utf8(event_stream(chunk))),
    ensures
        read_document(stream_envelope(chunk)) == Some(
            result_document(
                object_of(
                    seq![
                        ("headers"@, headers_of("text/event-stream"@)),
                        (
                            "chunks"@,
                            JsonView::Array(
                                seq![
                                    object_of(
                                        seq![
                                            (
                                                "Payload"@,
                                                JsonView::Str(
                                                    base64_text(encode_utf8(event_stream(chunk))),
                                                ),
                                            ),
                                        ],
                                    ),
                                ],
                            ),
                        ),
                    ],
                ),
            ),
        ),
{
    let payload = base64_text(encode_utf8(event_stream(chunk)));
    reveal_strlit("Payload");
    reveal_strlit("headers");
    reveal_strlit("chunks");
    reveal_strlit("content-type");
    reveal_strlit("text/event-stream");
    reveal_strlit(
        "{\"headers\":{\"content-type\":[\"text/event-stream\"]},\"chunks\":[{\"Payload\":\"",
    );
    reveal_strlit("\"}]}");
    law_plain_text_kept("Payload"@);
    law_plain_text_kept("headers"@);
    law_plain_text_kept("chunks"@);
    law_plain_text_kept("content-type"@);
    law_plain_text_kept("text/event-stream"@);
    lemma_string_reads(payload);
    lemma_kept_is_shown(payload);
    lemma_headers_read("text/event-stream"@);
    let headers = one_member_text(
        "content-type"@,
        one_item_text(string_text("text/event-stream"@)),
    );
    let piece = one_member_text("Payload"@, string_text(payload));
    let piece_json = object_of(seq![("Payload"@, JsonView::Str(payload))]);
    lemma_one_member_reads("Payload"@, string_text(payload), JsonView::Str(payload), 0);
    lemma_one_item_reads(piece, piece_json, 1);
    let chunks_json = JsonView::Array(seq![piece_json]);
    lemma_two_members_read(
        "headers"@,
        headers,
        headers_of("text/event-stream"@),
        "chunks"@,
        one_item_text(piece),
        chunks_json,
        2,
    );
    let result = two_member_text("headers"@, headers, "chunks"@, one_item_text(piece));
    let json = object_of(
        seq![("headers"@, headers_of("text/event-stream"@)), ("chunks"@, chunks_json)],
    );
    assert(result
        =~= "{\"headers\":{\"content-type\":[\"text/event-stream\"]},\"chunks\":[{\"Payload\":\""@
        + payload + "\"}]}"@);
    law_result_envelope_is_json(result, json, 3);
    lemma_whole_text(ok_envelope(result), result_document(json), 4);
}

/// A stream is two events, the chunk and the end mark: its lines are the chunk on a `data` line,
/// a blank line, the mark on a `data` line and a blank line, and nothing is behind the last.
/// (That the chunk has no ends of lines is what `build_stream_executor_response` promises of
/// it.)
pub proof fn law_stream_is_two_events(chunk: JsonView)
    requires
        has_no_breaks(json_text(chunk)),
    ensures
        split_of(event_stream(chunk), '\n') == seq![
            "data: "@ + json_text(chunk),
            Seq::empty(),
            "data: [DONE]"@,
            Seq::empty(),
            Seq::empty(),
        ],
{
    reveal_strlit("data: ");
    reveal_strlit("data: [DONE]");
    reveal_strlit("\n\ndata: [DONE]\n\n");
    let nothing = Seq::<char>::empty();
    let line = "data: "@ + json_text(chunk);
    let done = "data: [DONE]"@;
    assert forall|i: int| 0 <= i < line.len() implies line[i] != '\n' by {
        if i >= 6 {
            assert(line[i] == json_text(chunk)[i - 6]);
        }
    }
    lemma_split_none(line, '\n');
    lemma_split_none(done, '\n');
    lemma_split_none(nothing, '\n');
    let last = nothing + seq!['\n'] + nothing;
    lemma_split_concat(nothing, '\n', nothing);
    let from_done = done + seq!['\n'] + last;
    lemma_split_concat(done, '\n', last);
    let from_blank = nothing + seq!['\n'] + from_done;
    lemma_split_concat(nothing, '\n', from_done);
    lemma_split_concat(line, '\n', from_blank);
    assert(event_stream(chunk) =~= line + seq!['\n'] + from_blank);
    assert(split_of(event_stream(chunk), '\n') =~= seq![
        line,
        nothing,
        done,
        nothing,
        nothing,
    ]);
}

} // verus!
