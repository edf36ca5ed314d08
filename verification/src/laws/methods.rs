//! Laws of the methods: routing, configuring, dispatch.
use vstd::prelude::*;
use vstd::utf8::*;

use crate::codec::{json_parse, json_text};
use crate::config::{configured, ConfigView};
use crate::envelope::{error_envelope_of, ok_envelope};
use crate::executor::{chat_request, execution_of};
use crate::json::{or_empty, JsonView};
use crate::laws::texts::law_prefix;
use crate::plugin::{
    call_step, config_after, is_lifecycle, method_named, method_step, CallStepView, StepView,
};
use crate::registration::registration;
use crate::router::{claimed, declined, is_gemini, routing_of};
use crate::session::SessionView;
use crate::text::{lemma_trim_lower, lower_of};

verus! {

/// When the plugin is switched off, the router declines all requests, whatever they hold.
pub proof fn law_disabled_declines(config: ConfigView, raw: Seq<u8>)
    requires
        !config.enabled,
    ensures
        routing_of(config, raw) == Ok::<Seq<u8>, Seq<char>>(declined()),
{
}

/// A request for a known agent is claimed, whether or not all models are routed.
pub proof fn law_agents_claimed(config: ConfigView, raw: Seq<u8>)
    requires
        config.enabled,
        json_parse(raw) is Ok,
        or_empty(json_parse(raw)->Ok_0.str_at("RequestedModel"@)).len() > 0,
        config.agents.contains(or_empty(json_parse(raw)->Ok_0.str_at("RequestedModel"@))),
    ensures
        routing_of(config, raw) == Ok::<Seq<u8>, Seq<char>>(claimed()),
{
}

/// When only agents are routed, a request for anything else is declined.
pub proof fn law_only_agents_claimed(config: ConfigView, raw: Seq<u8>)
    requires
        !config.route_all_models,
        json_parse(raw) is Ok,
        !config.agents.contains(or_empty(json_parse(raw)->Ok_0.str_at("RequestedModel"@))),
    ensures
        routing_of(config, raw) == Ok::<Seq<u8>, Seq<char>>(declined()),
{
}

/// Where all models are routed, a request for a model whose name begins with `gemini-` or
/// `gemma-` is claimed, whatever stands behind that.
pub proof fn law_gemini_models_claimed(
    config: ConfigView,
    raw: Seq<u8>,
    req: JsonView,
    name: Seq<char>,
    rest: Seq<char>,
)
    requires
        config.enabled,
        config.route_all_models,
        json_parse(raw) == Ok::<JsonView, Seq<char>>(req),
        req.get("RequestedModel"@) == Some(JsonView::Str(name)),
        name == "gemini-"@ + rest || name == "gemma-"@ + rest,
    ensures
        is_gemini(name),
        routing_of(config, raw) == Ok::<Seq<u8>, Seq<char>>(claimed()),
{
    reveal_strlit("gemini-");
    reveal_strlit("gemma-");
    let lower = lower_of(name);
    if name == "gemini-"@ + rest {
        assert(lower.take(7) =~= "gemini-"@);
    } else {
        assert(lower.take(6) =~= "gemma-"@);
    }
}

/// A model is a Gemini chat model if and only if its name, in small letters, begins with
/// `gemini-` or `gemma-`.
pub proof fn law_gemini_by_name(name: Seq<char>)
    ensures
        is_gemini(name) <==> (exists|rest: Seq<char>|
            lower_of(name) == #[trigger] ("gemini-"@ + rest)) || (exists|rest: Seq<char>|
            lower_of(name) == #[trigger] ("gemma-"@ + rest)),
{
    law_prefix(lower_of(name), "gemini-"@);
    law_prefix(lower_of(name), "gemma-"@);
}

/// Where all models are routed, a request is claimed if and only if its model is an agent or a
/// Gemini chat model; one that names no model is declined.
pub proof fn law_claims_decided_by_name(
    config: ConfigView,
    raw: Seq<u8>,
    req: JsonView,
    name: Seq<char>,
)
    requires
        config.enabled,
        json_parse(raw) == Ok::<JsonView, Seq<char>>(req),
    ensures
        req.get("RequestedModel"@) == Some(JsonView::Str(name)) && name.len() > 0 ==> routing_of(
            config,
            raw,
        ) == Ok::<Seq<u8>, Seq<char>>(
            if config.agents.contains(name) || (config.route_all_models && is_gemini(name)) {
                claimed()
            } else {
                declined()
            },
        ),
        or_empty(req.str_at("RequestedModel"@)).len() == 0 ==> routing_of(config, raw) == Ok::<
            Seq<u8>,
            Seq<char>,
        >(declined()),
{
}

/// A name that is no agent and begins, in whatever case, with neither `gemini-` nor `gemma-` is
/// declined.
pub proof fn law_other_models_declined(
    config: ConfigView,
    raw: Seq<u8>,
    req: JsonView,
    name: Seq<char>,
)
    requires
        config.enabled,
        json_parse(raw) == Ok::<JsonView, Seq<char>>(req),
        req.get("RequestedModel"@) == Some(JsonView::Str(name)),
        !config.agents.contains(name),
        forall|rest: Seq<char>| lower_of(name) != #[trigger] ("gemini-"@ + rest),
        forall|rest: Seq<char>| lower_of(name) != #[trigger] ("gemma-"@ + rest),
    ensures
        routing_of(config, raw) == Ok::<Seq<u8>, Seq<char>>(declined()),
{
    law_gemini_by_name(name);
}

/// A route request that cannot be read is an error, unless the plugin is switched off.
pub proof fn law_route_request_error(config: ConfigView, raw: Seq<u8>, e: Seq<char>)
    requires
        config.enabled,
        json_parse(raw) == Err::<JsonView, Seq<char>>(e),
    ensures
        routing_of(config, raw) == Err::<Seq<u8>, Seq<char>>("decode route request: "@ + e),
{
}

/// The case of a model name does not matter to the router.
pub proof fn law_model_case_irrelevant(name: Seq<char>)
    ensures
        is_gemini(lower_of(name)) == is_gemini(name),
{
    lemma_trim_lower(name);
}

/// No method but the two that hand over a configuration changes it.
pub proof fn law_only_lifecycle_configures(config: ConfigView, method: Seq<char>, request: Seq<u8>)
    requires
        !is_lifecycle(method),
    ensures
        config_after(config, method, request) == config,
{
}

/// A lifecycle request without bytes, or one that cannot be read, leaves the configuration as
/// it is; any other replaces it as a whole, whatever it was before.
pub proof fn law_lifecycle_replaces_configuration(
    config: ConfigView,
    other: ConfigView,
    method: Seq<char>,
    request: Seq<u8>,
)
    requires
        is_lifecycle(method),
    ensures
        request.len() == 0 || json_parse(request) is Err ==> config_after(config, method, request)
            == config,
        request.len() > 0 && json_parse(request) is Ok ==> config_after(config, method, request)
            == config_after(other, method, request),
{
}

/// The host is called for nothing but the execution of a chat request.
pub proof fn law_only_execution_calls_host(
    config: ConfigView,
    sessions: Map<Seq<u8>, SessionView>,
    method: Seq<char>,
    request: Seq<u8>,
)
    requires
        method_step(config, sessions, method, request) is Call,
    ensures
        method == "executor.execute"@ || method == "executor.execute_stream"@,
        chat_request(request) is Ok,
{
}

/// A call that fails returns 1 and an error envelope; one that does not returns 0 and what its
/// method answers, or makes the call of the host that its method asks for.
pub proof fn law_return_codes(
    config: ConfigView,
    sessions: Map<Seq<u8>, SessionView>,
    method: Option<Seq<u8>>,
    request: Seq<u8>,
)
    ensures
        match call_step(config, sessions, method, request) {
            CallStepView::CallHost(call) => method_named(method) matches Ok(name) && method_step(
                config,
                sessions,
                name,
                request,
            ) == StepView::Call(call),
            CallStepView::Reply { rc, response } => match method_named(method) {
                Err(message) => rc == 1 && response == encode_utf8(
                    error_envelope_of("invalid_method"@, message),
                ),
                Ok(name) => match method_step(config, sessions, name, request) {
                    StepView::Done(Ok(body)) => rc == 0 && response == body,
                    StepView::Done(Err(message)) => rc == 1 && response == encode_utf8(
                        error_envelope_of("plugin_error"@, message),
                    ),
                    StepView::Call(_) => false,
                },
            },
        },
{
}

/// The names of the methods differ from each other.
proof fn lemma_method_names()
    ensures
        !is_lifecycle("executor.identifier"@),
        !is_lifecycle("model.route"@),
        !is_lifecycle("executor.execute"@),
        !is_lifecycle("executor.execute_stream"@),
        !is_lifecycle("executor.count_tokens"@),
        !is_lifecycle("executor.http_request"@),
        "executor.identifier"@ != "model.route"@,
        "executor.identifier"@ != "executor.execute"@,
        "executor.identifier"@ != "executor.execute_stream"@,
        "executor.identifier"@ != "executor.count_tokens"@,
        "executor.identifier"@ != "executor.http_request"@,
        "model.route"@ != "executor.execute"@,
        "model.route"@ != "executor.execute_stream"@,
        "model.route"@ != "executor.count_tokens"@,
        "model.route"@ != "executor.http_request"@,
        "executor.execute"@ != "executor.execute_stream"@,
        "executor.execute"@ != "executor.count_tokens"@,
        "executor.execute"@ != "executor.http_request"@,
        "executor.execute_stream"@ != "executor.count_tokens"@,
        "executor.execute_stream"@ != "executor.http_request"@,
        "executor.count_tokens"@ != "executor.http_request"@,
{
    reveal_strlit("plugin.register");
    reveal_strlit("plugin.reconfigure");
    reveal_strlit("executor.identifier");
    reveal_strlit("model.route");
    reveal_strlit("executor.execute");
    reveal_strlit("executor.execute_stream");
    reveal_strlit("executor.count_tokens");
    reveal_strlit("executor.http_request");
    assert("plugin.register"@.len() == 15);
    assert("plugin.reconfigure"@.len() == 18);
    assert("executor.identifier"@.len() == 19);
    assert("model.route"@.len() == 11);
    assert("executor.execute"@.len() == 16);
    assert("executor.execute_stream"@.len() == 23);
    assert("executor.count_tokens"@.len() == 21 && "executor.count_tokens"@[9] == 'c');
    assert("executor.http_request"@.len() == 21 && "executor.http_request"@[9] == 'h');
}

/// What each method answers, whatever the state and the request.
pub proof fn law_method_answers(
    config: ConfigView,
    sessions: Map<Seq<u8>, SessionView>,
    request: Seq<u8>,
)
    ensures
        method_step(config, sessions, "executor.identifier"@, request) == StepView::Done(
            Ok(
                encode_utf8(
                    ok_envelope("{\"identifier\":\"cpa-interactions-provider\"}"@),
                ),
            ),
        ),
        method_step(config, sessions, "executor.count_tokens"@, request) == StepView::Done(
            Ok(encode_utf8(ok_envelope("{\"Payload\":\"eyJ0b3RhbF90b2tlbnMiOjB9\"}"@))),
        ),
        method_step(config, sessions, "executor.http_request"@, request) == StepView::Done(
            Ok(
                encode_utf8(
                    ok_envelope(
                        "{\"StatusCode\":200,\"Headers\":{\"content-type\":[\"application/json\"]}}"@,
                    ),
                ),
            ),
        ),
        method_step(config, sessions, "model.route"@, request) == StepView::Done(
            routing_of(config, request),
        ),
        match execution_of(config, sessions, request, false) {
            Ok(call) => method_step(config, sessions, "executor.execute"@, request)
                == StepView::Call(call),
            Err(e) => method_step(config, sessions, "executor.execute"@, request)
                == StepView::Done(Err(e)),
        },
        match execution_of(config, sessions, request, true) {
            Ok(call) => method_step(config, sessions, "executor.execute_stream"@, request)
                == StepView::Call(call),
            Err(e) => method_step(config, sessions, "executor.execute_stream"@, request)
                == StepView::Done(Err(e)),
        },
{
    lemma_method_names();
}

/// Registering and reconfiguring do the same: they take the configuration over and answer with
/// the registration, or they report what is wrong and change nothing.
pub proof fn law_lifecycle_answers(
    config: ConfigView,
    sessions: Map<Seq<u8>, SessionView>,
    method: Seq<char>,
    request: Seq<u8>,
)
    requires
        method == "plugin.register"@ || method == "plugin.reconfigure"@,
    ensures
        match configured(config, request) {
            Ok(new) => config_after(config, method, request) == new && method_step(
                config,
                sessions,
                method,
                request,
            ) == StepView::Done(Ok(encode_utf8(ok_envelope(json_text(registration()))))),
            Err(e) => config_after(config, method, request) == config && method_step(
                config,
                sessions,
                method,
                request,
            ) == StepView::Done(Err(e)),
        },
        request.len() == 0 ==> configured(config, request) == Ok::<ConfigView, Seq<char>>(config),
{
}

/// Any other method is answered with an error that names it.
pub proof fn law_unknown_method(
    config: ConfigView,
    sessions: Map<Seq<u8>, SessionView>,
    method: Seq<char>,
    request: Seq<u8>,
)
    requires
        method != "plugin.register"@,
        method != "plugin.reconfigure"@,
        method != "executor.identifier"@,
        method != "model.route"@,
        method != "executor.execute"@,
        method != "executor.execute_stream"@,
        method != "executor.count_tokens"@,
        method != "executor.http_request"@,
    ensures
        method_step(config, sessions, method, request) == StepView::Done(
            Ok(
                encode_utf8(
                    error_envelope_of("unknown_method"@, "unknown method: "@ + method),
                ),
            ),
        ),
        config_after(config, method, request) == config,
{
}

/// The method is the one that the bytes spell, and bytes that spell none, or no bytes, are
/// errors of their own.
pub proof fn law_method_spelled(name: Seq<char>, bytes: Seq<u8>)
    ensures
        method_named(Some(encode_utf8(name))) == Ok::<Seq<char>, Seq<char>>(name),
        !valid_utf8(bytes) ==> method_named(Some(bytes)) == Err::<Seq<char>, Seq<char>>(
            "method is not utf-8"@,
        ),
        method_named(None) == Err::<Seq<char>, Seq<char>>("method is required"@),
{
    encode_utf8_valid_utf8(name);
    encode_utf8_decode_utf8(name);
}

} // verus!
