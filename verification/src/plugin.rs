//! The plugin as its host sees it: one call per method, some of which wait for a call of the
//! host in turn.
use vstd::prelude::*;
use vstd::string::*;
use vstd::utf8::*;

use crate::answer::{
    finish_execute, interaction_of, reaches_client, settled_turn, settles, HostReply,
};
use crate::codec::{json_text, utf8_text};
use crate::config::{apply_config, configured, default_config, ConfigView, PluginConfig};
use crate::envelope::{
    error_envelope, error_envelope_of, ok_envelope, ok_envelope_bytes, write_response,
    CliproxyBuffer,
};
use crate::executor::{
    bytes_view, chat_request, execute, execution_of, joined, reaches_host, request_body,
    request_call, PendingCall, PendingView,
};
use crate::registration::{registration, registration_result};
use crate::router::{route_model, routing_of};
use crate::session::{bound, SessionMap, SessionView};
use crate::text::same_text;

verus! {

/// What the plugin keeps between calls.
pub struct PluginState {
    pub config: PluginConfig,
    pub sessions: SessionMap,
}

/// The configuration in force.
pub fn config(state: &PluginState) -> (r: &PluginConfig)
    ensures
        *r == state.config,
{
    &state.config
}

/// The sessions so far.
pub fn sessions(state: &PluginState) -> (r: &SessionMap)
    ensures
        *r == state.sessions,
{
    &state.sessions
}

impl PluginState {
    /// The state of a plugin that has just been loaded.
    pub fn new() -> (r: Self)
        ensures
            r.config@ == default_config(),
            r.sessions@ == Map::<Seq<u8>, SessionView>::empty(),
    {
        PluginState { config: PluginConfig::defaults(), sessions: SessionMap::new() }
    }
}

/// Where a method call has got: to its end, or to a call that the host has to make.
pub enum Step {
    Done(Result<Vec<u8>, String>),
    Call(PendingCall),
}

/// The mathematical model of a step.
pub enum StepView {
    Done(Result<Seq<u8>, Seq<char>>),
    Call(PendingView),
}

impl View for Step {
    type V = StepView;

    open spec fn view(&self) -> StepView {
        match self {
            Step::Done(r) => StepView::Done(bytes_view(*r)),
            Step::Call(call) => StepView::Call(call@),
        }
    }
}

/// The methods that hand over a configuration.
pub open spec fn is_lifecycle(method: Seq<char>) -> bool {
    method == "plugin.register"@ || method == "plugin.reconfigure"@
}

/// A result in its envelope.
pub open spec fn done_with(result: Seq<char>) -> StepView {
    StepView::Done(Ok(encode_utf8(ok_envelope(result))))
}

/// How far the execution of a chat request gets.
pub open spec fn execution_step(call: Result<PendingView, Seq<char>>) -> StepView {
    match call {
        Ok(pending) => StepView::Call(pending),
        Err(e) => StepView::Done(Err(e)),
    }
}

/// The configuration after a method call.
pub open spec fn config_after(
    config: ConfigView,
    method: Seq<char>,
    request: Seq<u8>,
) -> ConfigView {
    if is_lifecycle(method) {
        match configured(config, request) {
            Ok(new) => new,
            Err(_) => config,
        }
    } else {
        config
    }
}

/// How far a method call gets.
pub open spec fn method_step(
    config: ConfigView,
    sessions: Map<Seq<u8>, SessionView>,
    method: Seq<char>,
    request: Seq<u8>,
) -> StepView {
    if is_lifecycle(method) {
        match configured(config, request) {
            Ok(_) => done_with(json_text(registration())),
            Err(e) => StepView::Done(Err(e)),
        }
    } else if method == "executor.identifier"@ {
        done_with("{\"identifier\":\"cpa-interactions-provider\"}"@)
    } else if method == "model.route"@ {
        StepView::Done(routing_of(config, request))
    } else if method == "executor.execute"@ {
        execution_step(execution_of(config, sessions, request, false))
    } else if method == "executor.execute_stream"@ {
        execution_step(execution_of(config, sessions, request, true))
    } else if method == "executor.count_tokens"@ {
        done_with("{\"Payload\":\"eyJ0b3RhbF90b2tlbnMiOjB9\"}"@)
    } else if method == "executor.http_request"@ {
        done_with("{\"StatusCode\":200,\"Headers\":{\"content-type\":[\"application/json\"]}}"@)
    } else {
        StepView::Done(
            Ok(
                encode_utf8(
                    error_envelope_of("unknown_method"@, "unknown method: "@ + method),
                ),
            ),
        )
    }
}

/// Whether the host reads out of a payload the call that the bytes of an executor request
/// become.
pub open spec fn posts(
    config: ConfigView,
    sessions: Map<Seq<u8>, SessionView>,
    request: Seq<u8>,
    payload: Seq<u8>,
) -> bool {
    chat_request(request) matches Ok((req, model, openai)) && reaches_host(
        payload,
        request_call(config, sessions, req, model, openai),
        request_body(config, sessions, model, openai),
    )
}

fn execute_step(state: &PluginState, request: &[u8], stream: bool) -> (r: Step)
    ensures
        r@ == execution_step(
            execution_of(state.config@, state.sessions@, request@, stream),
        ),
        r matches Step::Call(call) ==> posts(
            state.config@,
            state.sessions@,
            request@,
            call.payload@,
        ),
{
    match execute(&state.config, &state.sessions, request, stream) {
        Ok(call) => Step::Call(call),
        Err(e) => Step::Done(Err(e)),
    }
}

/// Answers a method call, or gets to the call that the host has to make for it.
pub fn handle_method(state: &mut PluginState, method: &str, request: &[u8]) -> (r: Step)
    ensures
        r@ == method_step(old(state).config@, old(state).sessions@, method@, request@),
        final(state).config@ == config_after(old(state).config@, method@, request@),
        final(state).sessions@ == old(state).sessions@,
        r matches Step::Call(call) ==> posts(
            old(state).config@,
            old(state).sessions@,
            request@,
            call.payload@,
        ),
{
    if same_text(method, "plugin.register") || same_text(method, "plugin.reconfigure") {
        return match apply_config(&mut state.config, request) {
            Ok(()) => Step::Done(Ok(ok_envelope_bytes(registration_result().as_str()))),
            Err(e) => Step::Done(Err(e)),
        };
    }
    if same_text(method, "executor.identifier") {
        return Step::Done(
            Ok(ok_envelope_bytes("{\"identifier\":\"cpa-interactions-provider\"}")),
        );
    }
    if same_text(method, "model.route") {
        return Step::Done(route_model(&state.config, request));
    }
    if same_text(method, "executor.execute") {
        return execute_step(state, request, false);
    }
    if same_text(method, "executor.execute_stream") {
        return execute_step(state, request, true);
    }
    if same_text(method, "executor.count_tokens") {
        return Step::Done(Ok(ok_envelope_bytes("{\"Payload\":\"eyJ0b3RhbF90b2tlbnMiOjB9\"}")));
    }
    if same_text(method, "executor.http_request") {
        return Step::Done(
            Ok(
                ok_envelope_bytes(
                    "{\"StatusCode\":200,\"Headers\":{\"content-type\":[\"application/json\"]}}",
                ),
            ),
        );
    }
    let message: String = joined("unknown method: ", method);
    Step::Done(Ok(error_envelope("unknown_method", message.as_str()).as_str().as_bytes_vec()))
}

/// Goes on with a method call once the host has replied.
pub fn resume_method(
    state: &mut PluginState,
    pending: &PendingCall,
    reply: &HostReply,
    created: i64,
) -> (r: Result<Vec<u8>, String>)
    ensures
        settles(
            settled_turn(pending@, *reply, created),
            r,
            old(state).sessions@,
            final(state).sessions@,
        ),
        r is Ok ==> (interaction_of(*reply) matches Ok(interaction) && reaches_client(
            pending@,
            interaction,
            created,
        )),
        final(state).config@ == old(state).config@,
{
    finish_execute(&mut state.sessions, pending, reply, created)
}

/// Where a call of the plugin has got: to a return code and an answer, or to a call that the
/// host has to make.
pub enum CallStep {
    Reply { rc: i32, response: CliproxyBuffer },
    CallHost(PendingCall),
}

/// The mathematical model of a call step.
pub enum CallStepView {
    Reply { rc: i32, response: Seq<u8> },
    CallHost(PendingView),
}

impl View for CallStep {
    type V = CallStepView;

    open spec fn view(&self) -> CallStepView {
        match self {
            CallStep::Reply { rc, response } => CallStepView::Reply {
                rc: *rc,
                response: response@,
            },
            CallStep::CallHost(call) => CallStepView::CallHost(call@),
        }
    }
}

/// An error in its envelope, with the return code of failure.
pub open spec fn failure(code: Seq<char>, message: Seq<char>) -> CallStepView {
    CallStepView::Reply { rc: 1, response: encode_utf8(error_envelope_of(code, message)) }
}

/// The return code and the answer of a finished method call.
pub open spec fn reply_of(outcome: Result<Seq<u8>, Seq<char>>) -> CallStepView {
    match outcome {
        Ok(body) => CallStepView::Reply { rc: 0, response: body },
        Err(message) => failure("plugin_error"@, message),
    }
}

fn failed(code: &str, message: &str) -> (r: CallStep)
    ensures
        r@ == failure(code@, message@),
{
    let mut response = CliproxyBuffer::null();
    let body: Vec<u8> = error_envelope(code, message).as_str().as_bytes_vec();
    write_response(&mut response, body.as_slice());
    assert(response@ =~= body@);
    CallStep::Reply { rc: 1, response }
}

/// Turns the outcome of a method call into a return code and an answer.
pub fn reply_with(outcome: Result<Vec<u8>, String>) -> (r: CallStep)
    ensures
        r@ == reply_of(bytes_view(outcome)),
{
    match outcome {
        Ok(body) => {
            let mut response = CliproxyBuffer::null();
            write_response(&mut response, body.as_slice());
            assert(response@ =~= body@);
            CallStep::Reply { rc: 0, response }
        },
        Err(message) => failed("plugin_error", message.as_str()),
    }
}

/// The method that the bytes of a C string name, or what is wrong with them.
pub open spec fn method_named(method: Option<Seq<u8>>) -> Result<Seq<char>, Seq<char>> {
    match method {
        None => Err("method is required"@),
        Some(bytes) => if valid_utf8(bytes) {
            Ok(decode_utf8(bytes))
        } else {
            Err("method is not utf-8"@)
        },
    }
}

/// The bytes of a C string that may be missing.
pub open spec fn opt_bytes(bytes: Option<&[u8]>) -> Option<Seq<u8>> {
    match bytes {
        Some(b) => Some(b@),
        None => None,
    }
}

/// How far a call of the plugin gets.
pub open spec fn call_step(
    config: ConfigView,
    sessions: Map<Seq<u8>, SessionView>,
    method: Option<Seq<u8>>,
    request: Seq<u8>,
) -> CallStepView {
    match method_named(method) {
        Err(message) => failure("invalid_method"@, message),
        Ok(name) => match method_step(config, sessions, name, request) {
            StepView::Done(outcome) => reply_of(outcome),
            StepView::Call(pending) => CallStepView::CallHost(pending),
        },
    }
}

/// Answers a call of the plugin. `method` is `None` where the host gave none.
pub fn plugin_call(state: &mut PluginState, method: Option<&[u8]>, request: &[u8]) -> (r: CallStep)
    ensures
        r@ == call_step(
            old(state).config@,
            old(state).sessions@,
            opt_bytes(method),
            request@,
        ),
        final(state).config@ == match method_named(opt_bytes(method)) {
            Ok(name) => config_after(old(state).config@, name, request@),
            Err(_) => old(state).config@,
        },
        final(state).sessions@ == old(state).sessions@,
        r matches CallStep::CallHost(call) ==> posts(
            old(state).config@,
            old(state).sessions@,
            request@,
            call.payload@,
        ),
{
    let name: &str = match method {
        None => {
            return failed("invalid_method", "method is required");
        },
        Some(bytes) => match utf8_text(bytes) {
            Some(name) => name,
            None => {
                return failed("invalid_method", "method is not utf-8");
            },
        },
    };
    match handle_method(state, name, request) {
        Step::Done(outcome) => reply_with(outcome),
        Step::Call(call) => CallStep::CallHost(call),
    }
}

/// Goes on with a call of the plugin once the host has replied.
pub fn resume_call(
    state: &mut PluginState,
    pending: &PendingCall,
    reply: &HostReply,
    created: i64,
) -> (r: CallStep)
    ensures
        match settled_turn(pending@, *reply, created) {
            Ok(done) => {
                &&& r@ == reply_of(Ok(done.response))
                &&& reaches_client(pending@, interaction_of(*reply)->Ok_0, created)
                &&& final(state).sessions@ == bound(old(state).sessions@, done.key, done.session)
            },
            Err(message) => {
                &&& r@ == reply_of(Err(message))
                &&& final(state).sessions@ == old(state).sessions@
            },
        },
        final(state).config@ == old(state).config@,
{
    reply_with(resume_method(state, pending, reply, created))
}

} // verus!
