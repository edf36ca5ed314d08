//! Laws of the session key: what is in the text that it is the digest of.
use vstd::prelude::*;
use vstd::utf8::*;

use crate::codec::{blake3_digest, json_text};
use crate::executor::session_of;
use crate::json::JsonView;
use crate::laws::messages::law_history_concat;
use crate::session::{
    bound, history_lines, json_lines, session_at, session_key, session_text, system_messages,
    SessionView,
};

verus! {

/// Every message with a role is in the history, whatever its role, and whole: the role and the
/// JSON text of the message stand in its place, each with a line feed behind it, between what
/// the messages before it and those behind it put there. A history without messages is empty.
pub proof fn law_message_with_role_in_history(
    before: Seq<JsonView>,
    message: JsonView,
    behind: Seq<JsonView>,
    role: Seq<char>,
)
    requires
        message.str_at("role"@) == Some(role),
    ensures
        history_lines(before + seq![message] + behind) == history_lines(before) + role + seq!['\n']
            + json_text(message) + seq!['\n'] + history_lines(behind),
        history_lines(Seq::empty()).len() == 0,
{
    reveal_strlit("\n");
    assert("\n"@ =~= seq!['\n']);
    law_history_concat(before + seq![message], behind);
    assert((before + seq![message]).drop_last() =~= before);
    assert(history_lines(before + seq![message]) =~= history_lines(before) + role + seq!['\n']
        + json_text(message) + seq!['\n']);
    assert(history_lines(before + seq![message] + behind) =~= history_lines(before) + role
        + seq!['\n'] + json_text(message) + seq!['\n'] + history_lines(behind));
}

/// Two histories that differ only in one message, of the same role, put different texts in the
/// key if and only if the messages have different JSON texts.
pub proof fn law_messages_told_apart(
    before: Seq<JsonView>,
    a: JsonView,
    b: JsonView,
    behind: Seq<JsonView>,
    role: Seq<char>,
)
    requires
        a.str_at("role"@) == Some(role),
        b.str_at("role"@) == Some(role),
    ensures
        history_lines(before + seq![a] + behind) == history_lines(before + seq![b] + behind)
            <==> json_text(a) == json_text(b),
{
    law_message_with_role_in_history(before, a, behind, role);
    law_message_with_role_in_history(before, b, behind, role);
    let head = history_lines(before) + role + seq!['\n'];
    let tail = seq!['\n'] + history_lines(behind);
    assert(history_lines(before + seq![a] + behind) =~= head + json_text(a) + tail);
    assert(history_lines(before + seq![b] + behind) =~= head + json_text(b) + tail);
    lemma_middle_told_apart(head, json_text(a), json_text(b), tail);
}

proof fn lemma_middle_told_apart(head: Seq<char>, a: Seq<char>, b: Seq<char>, tail: Seq<char>)
    ensures
        head + a + tail == head + b + tail <==> a == b,
{
    if head + a + tail == head + b + tail {
        let x = head + a + tail;
        let y = head + b + tail;
        assert(x.len() == y.len());
        assert(a =~= x.subrange(head.len() as int, (head.len() + a.len()) as int));
        assert(b =~= y.subrange(head.len() as int, (head.len() + b.len()) as int));
    }
}

/// The documents of a list are all in the key, each as its JSON text with a line feed behind
/// it, in their order.
pub proof fn law_documents_in_lines(a: Seq<JsonView>, json: JsonView, b: Seq<JsonView>)
    ensures
        json_lines(a + seq![json] + b) == json_lines(a) + json_text(json) + seq!['\n'] + json_lines(
            b,
        ),
        json_lines(Seq::empty()).len() == 0,
    decreases b.len(),
{
    reveal_strlit("\n");
    assert("\n"@ =~= seq!['\n']);
    let all = a + seq![json] + b;
    if b.len() == 0 {
        assert(all.drop_last() =~= a);
        assert(json_lines(all) =~= json_lines(a) + json_text(json) + seq!['\n'] + json_lines(b));
    } else {
        law_documents_in_lines(a, json, b.drop_last());
        assert(all.drop_last() =~= a + seq![json] + b.drop_last());
        assert(json_lines(all) =~= json_lines(a) + json_text(json) + seq!['\n'] + json_lines(b));
    }
}

/// The system messages of two lists, one behind the other, are those of the one and of the
/// other.
pub proof fn law_system_messages_concat(a: Seq<JsonView>, b: Seq<JsonView>)
    ensures
        system_messages(a + b) == system_messages(a) + system_messages(b),
    decreases b.len(),
{
    if b.len() == 0 {
        assert(a + b =~= a);
        assert(system_messages(a) + system_messages(b) =~= system_messages(a));
    } else {
        assert((a + b).drop_last() =~= a + b.drop_last());
        law_system_messages_concat(a, b.drop_last());
        assert(system_messages(a + b) =~= system_messages(a) + system_messages(b));
    }
}

/// A message is a system message if and only if that is its role.
pub proof fn law_single_system_message(message: JsonView)
    ensures
        message.str_at("role"@) == Some("system"@) ==> system_messages(seq![message])
            == seq![message],
        message.str_at("role"@) != Some("system"@) ==> system_messages(seq![message]).len() == 0,
        system_messages(Seq::empty()).len() == 0,
{
    assert(seq![message].drop_last() =~= Seq::empty());
    assert(system_messages(seq![message].drop_last()) =~= Seq::empty());
}

/// The key is the digest of all of this: the model, the history before the latest turn, and of
/// the request the system messages, the tools and the generation settings.
pub proof fn law_key_covers_conversation(
    model: Seq<char>,
    established: Seq<JsonView>,
    request: JsonView,
    messages: Seq<JsonView>,
    tools: Seq<JsonView>,
    settings: JsonView,
)
    ensures
        session_key(model, established, request) == blake3_digest(
            encode_utf8(session_text(model, established, request)),
        ),
        request.get("messages"@) == Some(JsonView::Array(messages)) && request.get("tools"@)
            == Some(JsonView::Array(tools)) && request.get("generation_config"@) == Some(settings)
            ==> session_text(model, established, request) == "model:"@ + model
            + "\nmessages:\n"@ + history_lines(established) + "system:\n"@ + json_lines(
            system_messages(messages),
        ) + "tools:\n"@ + json_lines(tools) + "generation_config:\n"@ + json_text(settings)
            + seq!['\n'],
{
    reveal_strlit("\n");
    assert("\n"@ =~= seq!['\n']);
    if request.get("messages"@) == Some(JsonView::Array(messages)) && request.get("tools"@) == Some(
        JsonView::Array(tools),
    ) && request.get("generation_config"@) == Some(settings) {
        assert(session_text(model, established, request) =~= "model:"@ + model + "\nmessages:\n"@
            + history_lines(established) + "system:\n"@ + json_lines(system_messages(messages))
            + "tools:\n"@ + json_lines(tools) + "generation_config:\n"@ + json_text(settings)
            + seq!['\n']);
    }
}

/// What a request lacks leaves its section of the key empty, and changes no other.
pub proof fn law_key_of_missing_parts(
    model: Seq<char>,
    established: Seq<JsonView>,
    request: JsonView,
    fuller: JsonView,
    settings: JsonView,
)
    ensures
        request.array_at("messages"@) is None && fuller.array_at("messages"@) == Some(
            Seq::<JsonView>::empty(),
        ) && fuller.array_at("tools"@) == request.array_at("tools"@) && fuller.get(
            "generation_config"@,
        ) == request.get("generation_config"@) ==> session_text(model, established, request)
            == session_text(model, established, fuller),
        request.array_at("tools"@) is None && fuller.array_at("tools"@) == Some(
            Seq::<JsonView>::empty(),
        ) && fuller.array_at("messages"@) == request.array_at("messages"@) && fuller.get(
            "generation_config"@,
        ) == request.get("generation_config"@) ==> session_text(model, established, request)
            == session_text(model, established, fuller),
        request.get("generation_config"@) is None && fuller.get("generation_config"@) == Some(
            settings,
        ) && fuller.array_at("messages"@) == request.array_at("messages"@) && fuller.array_at(
            "tools"@,
        ) == request.array_at("tools"@) ==> session_text(model, established, fuller)
            == session_text(model, established, request) + json_text(settings) + seq!['\n'],
{
    reveal_strlit("\n");
    assert("\n"@ =~= seq!['\n']);
    if request.get("generation_config"@) is None && fuller.get("generation_config"@) == Some(
        settings,
    ) && fuller.array_at("messages"@) == request.array_at("messages"@) && fuller.array_at("tools"@)
        == request.array_at("tools"@) {
        assert(session_text(model, established, fuller) =~= session_text(
            model,
            established,
            request,
        ) + json_text(settings) + seq!['\n']);
    }
}

/// Two models never share the text of a key for the same conversation.
pub proof fn law_models_told_apart(
    a: Seq<char>,
    b: Seq<char>,
    established: Seq<JsonView>,
    request: JsonView,
)
    ensures
        session_text(a, established, request) == session_text(b, established, request) <==> a == b,
{
    let empty = Seq::<char>::empty();
    let x = session_text(a, established, request);
    let y = session_text(b, established, request);
    let head = "model:"@;
    let end = session_text(empty, established, request).skip(head.len() as int);
    assert(session_text(empty, established, request) =~= head + end);
    assert(x =~= head + a + end);
    assert(y =~= head + b + end);
    lemma_middle_told_apart(head, a, b, end);
}

/// Two histories of the same request share the text of a key if and only if they put the same
/// lines in it.
pub proof fn law_histories_told_apart(
    model: Seq<char>,
    a: Seq<JsonView>,
    b: Seq<JsonView>,
    request: JsonView,
)
    ensures
        session_text(model, a, request) == session_text(model, b, request) <==> history_lines(a)
            == history_lines(b),
{
    let none = Seq::<JsonView>::empty();
    assert(history_lines(none) =~= Seq::<char>::empty());
    let head = "model:"@ + model + "\nmessages:\n"@;
    let end = session_text(model, none, request).skip(head.len() as int);
    assert(session_text(model, none, request) =~= head + end);
    assert(session_text(model, a, request) =~= head + history_lines(a) + end);
    assert(session_text(model, b, request) =~= head + history_lines(b) + end);
    lemma_middle_told_apart(head, history_lines(a), history_lines(b), end);
}

/// A request is looked up by the key of its model and of all its messages but the last.
pub proof fn law_lookup_by_history(
    sessions: Map<Seq<u8>, SessionView>,
    model: Seq<char>,
    request: JsonView,
    history: Seq<JsonView>,
    last: JsonView,
)
    requires
        request.array_at("messages"@) == Some(history.push(last)),
    ensures
        ({
            let key = session_key(model, history, request);
            &&& sessions.contains_key(key) ==> session_of(sessions, model, request) == Some(
                sessions[key],
            )
            &&& !sessions.contains_key(key) ==> session_of(sessions, model, request) is None
        }),
{
    assert(history.push(last).drop_last() =~= history);
}

/// Binding a key adds it with its session if it is new, and changes nothing if it is not.
pub proof fn law_binding(
    sessions: Map<Seq<u8>, SessionView>,
    key: Seq<u8>,
    session: SessionView,
    other: Seq<u8>,
)
    ensures
        sessions.contains_key(key) ==> bound(sessions, key, session) == sessions,
        !sessions.contains_key(key) ==> bound(sessions, key, session) == sessions.insert(
            key,
            session,
        ),
        other != key ==> session_at(bound(sessions, key, session), other) == session_at(
            sessions,
            other,
        ),
        session_at(bound(sessions, key, session), key) is Some,
{
}

} // verus!
