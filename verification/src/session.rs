//! The session map: which interaction continues which conversation.
use std::collections::HashMap;

use vstd::bytes::{spec_u128_from_le_bytes, u128_from_le_bytes};
use vstd::prelude::*;
use vstd::slice::slice_subrange;
use vstd::string::*;
use vstd::utf8::*;

use crate::codec::{blake3_digest, digest, json_text, print_json};
use crate::json::{
    array_views, entry_views, member, object_of, text_json, Json, JsonView,
};
use crate::text::same_text;

verus! {

broadcast use vstd::std_specs::hash::group_hash_axioms;

/// What the server knows a conversation by.
pub struct SessionState {
    /// The interaction that the conversation has reached.
    pub interaction_id: String,
    /// The environment that its agent works in, once one has been captured.
    pub environment_id: Option<String>,
}

/// The mathematical model of a session.
pub struct SessionView {
    pub interaction_id: Seq<char>,
    pub environment_id: Option<Seq<char>>,
}

impl View for SessionState {
    type V = SessionView;

    open spec fn view(&self) -> SessionView {
        SessionView {
            interaction_id: self.interaction_id@,
            environment_id: match self.environment_id {
                Some(id) => Some(id@),
                None => None,
            },
        }
    }
}

/// The sessions by the digest of their history.
pub struct SessionMap {
    /// The sessions in groups by the first half of the digest.
    buckets: HashMap<u128, Vec<([u8; 32], SessionState)>>,
}

/// The number of the group of a digest.
spec fn bucket_of(key: Seq<u8>) -> u128 {
    spec_u128_from_le_bytes(key.subrange(0, 16))
}

/// The session of `key` in a group.
spec fn find_in(bucket: Seq<([u8; 32], SessionState)>, key: Seq<u8>) -> Option<SessionView>
    decreases bucket.len(),
{
    if bucket.len() == 0 {
        None
    } else if bucket[0].0@ == key {
        Some(bucket[0].1@)
    } else {
        find_in(bucket.drop_first(), key)
    }
}

/// The session of `key`.
spec fn find(buckets: Map<u128, Vec<([u8; 32], SessionState)>>, key: Seq<u8>) -> Option<
    SessionView,
> {
    if buckets.contains_key(bucket_of(key)) {
        find_in(buckets[bucket_of(key)]@, key)
    } else {
        None
    }
}

impl View for SessionMap {
    type V = Map<Seq<u8>, SessionView>;

    closed spec fn view(&self) -> Map<Seq<u8>, SessionView> {
        Map::new(
            |key: Seq<u8>| find(self.buckets@, key) is Some,
            |key: Seq<u8>| find(self.buckets@, key)->0,
        )
    }
}

/// The session of `key`, where there is one.
pub open spec fn session_at(sessions: Map<Seq<u8>, SessionView>, key: Seq<u8>) -> Option<
    SessionView,
> {
    if sessions.contains_key(key) {
        Some(sessions[key])
    } else {
        None
    }
}

/// The sessions once a key has been bound to a session. The first binding of a key stays: a
/// key that is bound already is not bound again.
pub open spec fn bound(
    sessions: Map<Seq<u8>, SessionView>,
    key: Seq<u8>,
    session: SessionView,
) -> Map<Seq<u8>, SessionView> {
    if sessions.contains_key(key) {
        sessions
    } else {
        sessions.insert(key, session)
    }
}

/// The first entry of a key decides.
proof fn lemma_find_at(bucket: Seq<([u8; 32], SessionState)>, key: Seq<u8>, i: int)
    requires
        0 <= i <= bucket.len(),
        forall|k: int| 0 <= k < i ==> bucket[k].0@ != key,
        i < bucket.len() ==> bucket[i].0@ == key,
    ensures
        find_in(bucket, key) == if i < bucket.len() {
            Some(bucket[i].1@)
        } else {
            None
        },
    decreases i,
{
    if i > 0 {
        lemma_find_at(bucket.drop_first(), key, i - 1);
    }
}

/// An entry of another key does not matter.
proof fn lemma_find_other(
    bucket: Seq<([u8; 32], SessionState)>,
    entry: ([u8; 32], SessionState),
    key: Seq<u8>,
)
    requires
        entry.0@ != key,
    ensures
        find_in(bucket.push(entry), key) == find_in(bucket, key),
    decreases bucket.len(),
{
    if bucket.len() == 0 {
        assert(find_in(bucket.push(entry).drop_first(), key) is None);
    } else {
        assert(bucket.push(entry)[0] == bucket[0]);
        assert(bucket.push(entry).drop_first() =~= bucket.drop_first().push(entry));
        lemma_find_other(bucket.drop_first(), entry, key);
    }
}

fn same_key(a: &[u8; 32], b: &[u8; 32]) -> (r: bool)
    ensures
        r == (a@ == b@),
{
    let mut i: usize = 0;
    while i < 32
        invariant
            i <= 32,
            forall|k: int| 0 <= k < i ==> a@[k] == b@[k],
        decreases 32 - i,
    {
        if a[i] != b[i] {
            return false;
        }
        i = i + 1;
    }
    assert(a@ =~= b@);
    true
}

/// The place of a key in a group, or the length of a group without it.
fn place_of(bucket: &Vec<([u8; 32], SessionState)>, key: &[u8; 32]) -> (r: usize)
    ensures
        r <= bucket@.len(),
        forall|k: int| 0 <= k < r ==> bucket@[k].0@ != key@,
        r < bucket@.len() ==> bucket@[r as int].0@ == key@,
{
    let mut i: usize = 0;
    while i < bucket.len()
        invariant
            i <= bucket@.len(),
            forall|k: int| 0 <= k < i ==> bucket@[k].0@ != key@,
        decreases bucket@.len() - i,
    {
        if same_key(&bucket[i].0, key) {
            return i;
        }
        i = i + 1;
    }
    i
}

fn bucket_number(key: &[u8; 32]) -> (r: u128)
    ensures
        r == bucket_of(key@),
{
    u128_from_le_bytes(slice_subrange(key.as_slice(), 0, 16))
}

impl SessionMap {
    /// The map without sessions.
    pub fn new() -> (r: Self)
        ensures
            r@ == Map::<Seq<u8>, SessionView>::empty(),
    {
        let r = SessionMap { buckets: HashMap::new() };
        assert(r@ =~= Map::<Seq<u8>, SessionView>::empty());
        r
    }

    /// The session of `key`.
    pub fn get(&self, key: &[u8; 32]) -> (r: Option<&SessionState>)
        ensures
            match r {
                Some(state) => session_at(self@, key@) == Some(state@),
                None => session_at(self@, key@) is None,
            },
    {
        match self.buckets.get(&bucket_number(key)) {
            Some(bucket) => {
                let i: usize = place_of(bucket, key);
                proof {
                    lemma_find_at(bucket@, key@, i as int);
                }
                if i < bucket.len() {
                    Some(&bucket[i].1)
                } else {
                    None
                }
            },
            None => None,
        }
    }

    /// Binds `key` to a session, unless it is bound already.
    pub fn insert(&mut self, key: [u8; 32], state: SessionState)
        ensures
            final(self)@ == bound(old(self)@, key@, state@),
    {
        let number: u128 = bucket_number(&key);
        let ghost before = self.buckets@;
        if self.get(&key).is_some() {
            return;
        }
        let mut bucket: Vec<([u8; 32], SessionState)> = match self.buckets.remove(&number) {
            Some(bucket) => bucket,
            None => Vec::new(),
        };
        let ghost old_bucket = bucket@;
        let ghost entry = (key, state);
        let i: usize = place_of(&bucket, &key);
        proof {
            lemma_find_at(old_bucket, key@, i as int);
        }
        bucket.push((key, state));
        self.buckets.insert(number, bucket);
        proof {
            assert(bucket@ == old_bucket.push(entry));
            assert(self.buckets@ =~= before.insert(number, bucket));
            lemma_find_at(bucket@, key@, i as int);
            assert forall|other: Seq<u8>| other != key@ implies find(self.buckets@, other) == find(
                before,
                other,
            ) by {
                if bucket_of(other) == number {
                    lemma_find_other(old_bucket, entry, other);
                }
            }
            assert(self@ =~= old(self)@.insert(key@, entry.1@));
        }
    }
}

/// The role of a message.
pub open spec fn role_of(message: JsonView) -> Option<Seq<char>> {
    message.str_at("role"@)
}

/// A document on a line of its own.
pub open spec fn json_line(json: JsonView) -> Seq<char> {
    json_text(json) + "\n"@
}

/// The documents of a list, each on a line of its own.
pub open spec fn json_lines(items: Seq<JsonView>) -> Seq<char>
    decreases items.len(),
{
    if items.len() == 0 {
        Seq::empty()
    } else {
        json_lines(items.drop_last()) + json_line(items.last())
    }
}

/// What the history of a conversation puts in its key: of each message with a role, the role
/// and the whole message, each on a line of its own.
pub open spec fn history_lines(messages: Seq<JsonView>) -> Seq<char>
    decreases messages.len(),
{
    if messages.len() == 0 {
        Seq::empty()
    } else {
        history_lines(messages.drop_last()) + match role_of(messages.last()) {
            Some(role) => role + "\n"@ + json_line(messages.last()),
            None => Seq::empty(),
        }
    }
}

/// The messages with the role `system`.
pub open spec fn system_messages(messages: Seq<JsonView>) -> Seq<JsonView>
    decreases messages.len(),
{
    if messages.len() == 0 {
        Seq::empty()
    } else {
        let rest = system_messages(messages.drop_last());
        if role_of(messages.last()) == Some("system"@) {
            rest.push(messages.last())
        } else {
            rest
        }
    }
}

/// The array, or the empty one.
pub open spec fn or_none(items: Option<Seq<JsonView>>) -> Seq<JsonView> {
    match items {
        Some(list) => list,
        None => Seq::empty(),
    }
}

/// The text whose digest is the key of a conversation: the model, the history, and the system
/// messages, tools and generation settings of the request.
pub open spec fn session_text(
    model: Seq<char>,
    established: Seq<JsonView>,
    request: JsonView,
) -> Seq<char> {
    "model:"@ + model + "\nmessages:\n"@ + history_lines(established) + "system:\n"@ + json_lines(
        system_messages(or_none(request.array_at("messages"@))),
    ) + "tools:\n"@ + json_lines(or_none(request.array_at("tools"@))) + "generation_config:\n"@
        + match request.get("generation_config"@) {
        Some(settings) => json_line(settings),
        None => Seq::empty(),
    }
}

/// The key of a conversation.
pub open spec fn session_key(
    model: Seq<char>,
    established: Seq<JsonView>,
    request: JsonView,
) -> Seq<u8> {
    blake3_digest(encode_utf8(session_text(model, established, request)))
}

fn push_json_line(out: &mut String, json: &Json)
    ensures
        final(out)@ == old(out)@ + json_line(json@),
{
    let ghost before = out@;
    out.append(print_json(json).as_str());
    out.append("\n");
    assert(out@ =~= before + json_line(json@));
}

fn push_json_lines(out: &mut String, items: &Vec<Json>)
    ensures
        final(out)@ == old(out)@ + json_lines(array_views(items@)),
{
    let ghost before = out@;
    let ghost views = array_views(items@);
    let mut i: usize = 0;
    assert(out@ =~= before + json_lines(views.take(0)));
    while i < items.len()
        invariant
            i <= items@.len(),
            views == array_views(items@),
            out@ == before + json_lines(views.take(i as int)),
        decreases items@.len() - i,
    {
        assert(views.take(i + 1).drop_last() =~= views.take(i as int));
        push_json_line(out, &items[i]);
        i = i + 1;
        assert(out@ =~= before + json_lines(views.take(i as int)));
    }
    assert(views.take(views.len() as int) =~= views);
}

fn push_history_lines(out: &mut String, messages: &[Json])
    ensures
        final(out)@ == old(out)@ + history_lines(array_views(messages@)),
{
    let ghost before = out@;
    let ghost views = array_views(messages@);
    let mut i: usize = 0;
    assert(out@ =~= before + history_lines(views.take(0)));
    while i < messages.len()
        invariant
            i <= messages@.len(),
            views == array_views(messages@),
            out@ == before + history_lines(views.take(i as int)),
        decreases messages@.len() - i,
    {
        assert(views.take(i + 1).drop_last() =~= views.take(i as int));
        let message: &Json = &messages[i];
        if let Some(role) = message.str_at("role") {
            out.append(role);
            out.append("\n");
            push_json_line(out, message);
        }
        i = i + 1;
        assert(out@ =~= before + history_lines(views.take(i as int)));
    }
    assert(views.take(views.len() as int) =~= views);
}

fn push_system_lines(out: &mut String, messages: &Vec<Json>)
    ensures
        final(out)@ == old(out)@ + json_lines(system_messages(array_views(messages@))),
{
    let ghost before = out@;
    let ghost views = array_views(messages@);
    let mut i: usize = 0;
    assert(out@ =~= before + json_lines(system_messages(views.take(0))));
    while i < messages.len()
        invariant
            i <= messages@.len(),
            views == array_views(messages@),
            out@ == before + json_lines(system_messages(views.take(i as int))),
        decreases messages@.len() - i,
    {
        assert(views.take(i + 1).drop_last() =~= views.take(i as int));
        let message: &Json = &messages[i];
        let ghost found = system_messages(views.take(i as int));
        assert(found.push(message@).drop_last() =~= found);
        if let Some(role) = message.str_at("role") {
            if same_text(role, "system") {
                push_json_line(out, message);
            }
        }
        i = i + 1;
        assert(out@ =~= before + json_lines(system_messages(views.take(i as int))));
    }
    assert(views.take(views.len() as int) =~= views);
}

/// The text whose digest is the key of a conversation.
pub fn session_key_text(model: &str, established: &[Json], openai_req: &Json) -> (r: String)
    ensures
        r@ == session_text(model@, array_views(established@), openai_req@),
{
    let mut out = String::new();
    out.append("model:");
    out.append(model);
    out.append("\nmessages:\n");
    push_history_lines(&mut out, established);
    out.append("system:\n");
    if let Some(messages) = openai_req.array_at("messages") {
        push_system_lines(&mut out, messages);
    }
    out.append("tools:\n");
    if let Some(tools) = openai_req.array_at("tools") {
        push_json_lines(&mut out, tools);
    }
    out.append("generation_config:\n");
    if let Some(settings) = openai_req.get("generation_config") {
        push_json_line(&mut out, settings);
    }
    assert(out@ =~= session_text(model@, array_views(established@), openai_req@));
    out
}

/// The key of a conversation.
pub fn compute_session_key(model: &str, established: &[Json], openai_req: &Json) -> (r: [u8; 32])
    ensures
        r@ == session_key(model@, array_views(established@), openai_req@),
{
    let text: String = session_key_text(model, established, openai_req);
    digest(text.as_str().as_bytes())
}

/// The message in which the assistant answers: a text, and the tool calls if there are any.
pub open spec fn assistant_message(text: Seq<char>, calls: Seq<JsonView>) -> JsonView {
    let head = seq![
        ("role"@, JsonView::Str("assistant"@)),
        ("content"@, JsonView::Str(text)),
    ];
    let tail = if calls.len() == 0 {
        Seq::empty()
    } else {
        seq![("tool_calls"@, JsonView::Array(calls))]
    };
    object_of(head + tail)
}

/// Builds the message in which the assistant answers.
pub fn build_assistant_message(text: &str, calls: &Vec<Json>) -> (r: Json)
    ensures
        r@ == assistant_message(text@, array_views(calls@)),
{
    let mut members: Vec<(String, Json)> = Vec::new();
    members.push(member("role", text_json("assistant")));
    members.push(member("content", text_json(text)));
    let ghost head = seq![
        ("role"@, JsonView::Str("assistant"@)),
        ("content"@, JsonView::Str(text@)),
    ];
    assert(entry_views(members@) =~= head);
    if calls.len() > 0 {
        let copy: Vec<Json> = calls.clone();
        assert(array_views(copy@) =~= array_views(calls@));
        members.push(member("tool_calls", Json::Array(copy)));
        assert(entry_views(members@) =~= head + seq![
            ("tool_calls"@, JsonView::Array(array_views(calls@))),
        ]);
    } else {
        assert(entry_views(members@) =~= head + Seq::empty());
    }
    Json::Object(members)
}

/// The history that the next turn builds on: the messages of this one and the reply to them.
pub fn build_next_messages(
    request_messages: &[Json],
    assistant_text: &str,
    tool_calls: &Vec<Json>,
) -> (r: Vec<Json>)
    ensures
        array_views(r@) == array_views(request_messages@).push(
            assistant_message(assistant_text@, array_views(tool_calls@)),
        ),
{
    let mut next: Vec<Json> = Vec::new();
    let mut i: usize = 0;
    while i < request_messages.len()
        invariant
            i <= request_messages@.len(),
            next@.len() == i,
            forall|k: int| 0 <= k < i ==> next@[k]@ == request_messages@[k]@,
        decreases request_messages@.len() - i,
    {
        next.push(request_messages[i].clone());
        i = i + 1;
    }
    next.push(build_assistant_message(assistant_text, tool_calls));
    assert(array_views(next@) =~= array_views(request_messages@).push(
        assistant_message(assistant_text@, array_views(tool_calls@)),
    ));
    next
}

} // verus!
