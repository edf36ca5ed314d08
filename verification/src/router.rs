//! The model router: which requests the plugin claims.
use vstd::prelude::*;
use vstd::string::*;
use vstd::utf8::*;

use crate::codec::{
    is_plain, json_parse, json_text, lemma_plain_more, lemma_plain_object, parse_json, print_json,
};
use crate::config::{ConfigView, PluginConfig};
use crate::envelope::{ok_envelope, ok_envelope_bytes};
use crate::executor::{agent_named, bytes_view, is_agent, joined, text_or};
use crate::json::{entry_views, member, object_of, or_empty, text_json, Json, JsonView};
use crate::text::{ascii_lowercase, has_prefix, lower_of, starts_with};

verus! {

/// Whether a name is that of a Gemini or Gemma model, in whatever case.
pub open spec fn is_gemini(name: Seq<char>) -> bool {
    has_prefix(lower_of(name), "gemini-"@) || has_prefix(lower_of(name), "gemma-"@)
}

/// Whether a model is a Gemini chat model, by its name.
pub fn is_gemini_chat_model(name: &str) -> (r: bool)
    ensures
        r == is_gemini(name@),
{
    let lower: String = ascii_lowercase(name);
    starts_with(lower.as_str(), "gemini-") || starts_with(lower.as_str(), "gemma-")
}

/// The model that a route request names.
pub open spec fn requested_model(req: JsonView) -> Seq<char> {
    or_empty(req.str_at("RequestedModel"@))
}

/// Whether a model is claimed: an agent, or a Gemini chat model where all models are routed.
pub open spec fn claims(config: ConfigView, model: Seq<char>) -> bool {
    model.len() > 0 && (is_agent(config, model) || (config.route_all_models && is_gemini(model)))
}

/// The answer that claims a request.
pub open spec fn claim() -> JsonView {
    object_of(
        seq![
            ("Handled"@, JsonView::Bool(true)),
            ("TargetKind"@, JsonView::Str("self"@)),
            ("Reason"@, JsonView::Str("interactions-provider-claim"@)),
        ],
    )
}

/// The envelope that declines a request.
pub open spec fn declined() -> Seq<u8> {
    encode_utf8(ok_envelope("{\"Handled\":false}"@))
}

/// The envelope that claims a request.
pub open spec fn claimed() -> Seq<u8> {
    encode_utf8(ok_envelope(json_text(claim())))
}

/// The claim is a plain document.
proof fn lemma_plain_claim()
    ensures
        is_plain(claim(), 127),
{
    let members = seq![
        ("Handled"@, JsonView::Bool(true)),
        ("TargetKind"@, JsonView::Str("self"@)),
        ("Reason"@, JsonView::Str("interactions-provider-claim"@)),
    ];
    lemma_plain_object(members, 0);
    lemma_plain_more(object_of(members), 1, 127);
}

/// Whether the host reads the claim out of its text.
pub open spec fn claim_arrives() -> bool {
    json_parse(encode_utf8(json_text(claim()))) == Ok::<JsonView, Seq<char>>(claim())
}

/// Answers a route request for an enabled plugin.
pub fn route_request(config: &PluginConfig, req: &Json) -> (r: Vec<u8>)
    ensures
        r@ == if claims(config@, requested_model(req@)) {
            claimed()
        } else {
            declined()
        },
        claims(config@, requested_model(req@)) ==> claim_arrives(),
{
    let model: &str = text_or(req.str_at("RequestedModel"));
    if !model.is_empty() && (agent_named(config, model) || (config.route_all_models
        && is_gemini_chat_model(model))) {
        let mut members: Vec<(String, Json)> = Vec::new();
        members.push(member("Handled", Json::Bool(true)));
        members.push(member("TargetKind", text_json("self")));
        members.push(member("Reason", text_json("interactions-provider-claim")));
        assert(entry_views(members@) =~= seq![
            ("Handled"@, JsonView::Bool(true)),
            ("TargetKind"@, JsonView::Str("self"@)),
            ("Reason"@, JsonView::Str("interactions-provider-claim"@)),
        ]);
        proof {
            lemma_plain_claim();
        }
        return ok_envelope_bytes(print_json(&Json::Object(members)).as_str());
    }
    ok_envelope_bytes("{\"Handled\":false}")
}

/// The answer to the bytes of a route request.
pub open spec fn routing_of(config: ConfigView, raw: Seq<u8>) -> Result<Seq<u8>, Seq<char>> {
    if !config.enabled {
        Ok(declined())
    } else {
        match json_parse(raw) {
            Err(e) => Err("decode route request: "@ + e),
            Ok(req) => Ok(
                if claims(config, requested_model(req)) {
                    claimed()
                } else {
                    declined()
                },
            ),
        }
    }
}

/// Answers the bytes of a route request.
pub fn route_model(config: &PluginConfig, raw: &[u8]) -> (r: Result<Vec<u8>, String>)
    ensures
        bytes_view(r) == routing_of(config@, raw@),
        config.enabled && (json_parse(raw@) matches Ok(req) && claims(
            config@,
            requested_model(req),
        )) ==> claim_arrives(),
{
    if !config.enabled {
        return Ok(ok_envelope_bytes("{\"Handled\":false}"));
    }
    match parse_json(raw) {
        Ok(req) => Ok(route_request(config, &req)),
        Err(e) => Err(joined("decode route request: ", e.as_str())),
    }
}

} // verus!
