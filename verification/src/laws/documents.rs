//! Laws of documents and of the models of values: what is put in is what is found.
use vstd::prelude::*;

use crate::config::{texts_of, PluginConfig};
use crate::envelope::CliproxyBuffer;
use crate::executor::{
    bytes_view, opt_session, pending_view, source_view, PendingCall, PendingView,
};
use crate::json::{
    array_views, entry_views, lemma_entries_map_absent, lemma_entries_map_at, number_i64,
    object_of, opt_text, opt_view, or_empty, Json, JsonView,
};
use crate::plugin::{opt_bytes, CallStep, CallStepView, Step, StepView};
use crate::session::{or_none, session_at, SessionState, SessionView};

verus! {

/// A member is found in an object under its name and nowhere else, and in nothing but an
/// object.
pub proof fn law_members_found(json: JsonView, key: Seq<char>, value: JsonView)
    ensures
        json.get(key) == Some(value) <==> (json matches JsonView::Object(map)
            && map.contains_key(key) && map[key] == value),
        json !is Object ==> json.get(key) is None,
        json matches JsonView::Object(map) && !map.contains_key(key) ==> json.get(key) is None,
{
}

/// A member is found as a text, an array or an integer if and only if it is one, whole and
/// unchanged; one that is no integer counts as 0.
pub proof fn law_typed_members(
    json: JsonView,
    key: Seq<char>,
    text: Seq<char>,
    items: Seq<JsonView>,
    integer: i64,
)
    ensures
        json.str_at(key) == Some(text) <==> json.get(key) == Some(JsonView::Str(text)),
        json.str_at(key) is None <==> !(json.get(key) matches Some(JsonView::Str(_))),
        json.array_at(key) == Some(items) <==> json.get(key) == Some(JsonView::Array(items)),
        json.array_at(key) is None <==> !(json.get(key) matches Some(JsonView::Array(_))),
        json.get(key) == Some(JsonView::Int(integer)) ==> json.int_at(key) == integer,
        !(json.get(key) matches Some(JsonView::Int(_))) ==> json.int_at(key) == 0,
        json == JsonView::Str(text) <==> json.as_str() == Some(text),
        json == JsonView::Array(items) <==> json.as_array() == Some(items),
        or_empty(Some(text)) == text,
        or_empty(None).len() == 0,
        or_none(Some(items)) == items,
        or_none(None).len() == 0,
{
}

/// An object holds what it was made of: the last member of each name, and no name that no
/// member has.
pub proof fn law_object_holds_members(entries: Seq<(Seq<char>, JsonView)>, i: int, key: Seq<char>)
    ensures
        0 <= i < entries.len() && (forall|j: int|
            i < j < entries.len() ==> (#[trigger] entries[j]).0 != entries[i].0) ==> object_of(
            entries,
        ).get(entries[i].0) == Some(entries[i].1),
        (forall|j: int| 0 <= j < entries.len() ==> (#[trigger] entries[j]).0 != key) ==> object_of(
            entries,
        ).get(key) is None,
{
    if 0 <= i < entries.len() && (forall|j: int|
        i < j < entries.len() ==> (#[trigger] entries[j]).0 != entries[i].0) {
        lemma_entries_map_at(entries, i);
    }
    if forall|j: int| 0 <= j < entries.len() ==> (#[trigger] entries[j]).0 != key {
        lemma_entries_map_absent(entries, key);
    }
}

/// The model of a document holds all that the document does.
pub proof fn law_document_models(
    flag: bool,
    integer: i64,
    number: serde_json::Number,
    text: String,
    items: Vec<Json>,
    entries: Vec<(String, Json)>,
    i: int,
)
    ensures
        Json::Null@ == JsonView::Null,
        Json::Bool(flag)@ == JsonView::Bool(flag),
        Json::Int(integer)@ == JsonView::Int(integer),
        number_i64(number) is None ==> Json::Num(number)@ == JsonView::Num(number),
        number_i64(number) == Some(integer) ==> Json::Num(number)@ == JsonView::Int(integer),
        Json::Str(text)@ == JsonView::Str(text@),
        Json::Array(items)@ == JsonView::Array(array_views(items@)),
        array_views(items@).len() == items@.len(),
        0 <= i < items@.len() ==> array_views(items@)[i] == items@[i]@,
        Json::Object(entries)@ == object_of(entry_views(entries@)),
        entry_views(entries@).len() == entries@.len(),
        0 <= i < entries@.len() ==> entry_views(entries@)[i] == (entries@[i].0@, entries@[i].1@),
{
}

/// The models of optional values and of results keep what they hold.
pub proof fn law_optional_models(
    document: Json,
    text: String,
    bytes: Vec<u8>,
    state: SessionState,
    call: PendingCall,
)
    ensures
        opt_view(Some(&document)) == Some(document@),
        opt_view(None) is None,
        opt_session(Some(&state)) == Some(state@),
        opt_session(None) is None,
        bytes_view(Ok(bytes)) == Ok::<Seq<u8>, Seq<char>>(bytes@),
        bytes_view(Err(text)) == Err::<Seq<u8>, Seq<char>>(text@),
        pending_view(Ok(call)) == Ok::<PendingView, Seq<char>>(call@),
        pending_view(Err(text)) == Err::<PendingView, Seq<char>>(text@),
        source_view(Err(text)) == Err::<(Seq<char>, Seq<char>), Seq<char>>(text@),
{
}

/// The models of borrowed texts and bytes keep what they hold.
pub proof fn law_borrowed_models(text: &str, other: &str, bytes: &[u8])
    ensures
        opt_text(Some(text)) == Some(text@),
        opt_text(None) is None,
        opt_bytes(Some(bytes)) == Some(bytes@),
        opt_bytes(None) is None,
        source_view(Ok((text, other))) == Ok::<(Seq<char>, Seq<char>), Seq<char>>((text@, other@)),
{
}

/// The model of a configuration holds every field, and the agents in their order.
pub proof fn law_config_model(config: PluginConfig, i: int)
    ensures
        config@.enabled == config.enabled,
        config@.endpoint == config.endpoint@,
        config@.store == config.store,
        config@.default_environment == config.default_environment@,
        config@.route_all_models == config.route_all_models,
        config@.agents == texts_of(config.agents@),
        texts_of(config.agents@).len() == config.agents@.len(),
        0 <= i < config.agents@.len() ==> texts_of(config.agents@)[i] == config.agents@[i]@,
{
}

/// The models of sessions, calls, answers and steps hold every field.
pub proof fn law_state_models(
    state: SessionState,
    call: PendingCall,
    buffer: CliproxyBuffer,
    outcome: Result<Vec<u8>, String>,
    rc: i32,
    sessions: Map<Seq<u8>, SessionView>,
    key: Seq<u8>,
)
    ensures
        state@.interaction_id == state.interaction_id@,
        state.environment_id matches Some(id) ==> state@.environment_id == Some(id@),
        state.environment_id is None ==> state@.environment_id is None,
        call@.payload == call.payload@,
        call@.model == call.model@,
        call@.request == call.request@,
        call@.stream == call.stream,
        buffer@ == buffer.bytes@,
        Step::Done(outcome)@ == StepView::Done(bytes_view(outcome)),
        Step::Call(call)@ == StepView::Call(call@),
        (CallStep::Reply { rc, response: buffer })@ == (CallStepView::Reply {
            rc,
            response: buffer@,
        }),
        CallStep::CallHost(call)@ == CallStepView::CallHost(call@),
        sessions.contains_key(key) ==> session_at(sessions, key) == Some(sessions[key]),
        !sessions.contains_key(key) ==> session_at(sessions, key) is None,
{
}

} // verus!
