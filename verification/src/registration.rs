//! What the plugin tells the host about itself.
use vstd::prelude::*;
use vstd::string::*;
use vstd::utf8::*;

use crate::codec::{
    is_plain, json_parse, json_text, lemma_plain_more, lemma_plain_object, print_json,
};
use crate::executor::{array_of_one, text_array_of};
use crate::json::{array_views, entry_views, member, object_of, text_json, Json, JsonView};

verus! {

/// The version of the plugin interface.
pub const ABI_VERSION: u32 = 1;

/// The version of the registration document.
pub const SCHEMA_VERSION: u32 = 1;

/// The description of a configuration field.
pub open spec fn field_of(name: Seq<char>, kind: Seq<char>, description: Seq<char>) -> JsonView {
    object_of(
        seq![
            ("Name"@, JsonView::Str(name)),
            ("Type"@, JsonView::Str(kind)),
            ("Description"@, JsonView::Str(description)),
        ],
    )
}

fn build_field(name: &str, kind: &str, description: &str) -> (r: Json)
    ensures
        r@ == field_of(name@, kind@, description@),
{
    let mut members: Vec<(String, Json)> = Vec::new();
    members.push(member("Name", text_json(name)));
    members.push(member("Type", text_json(kind)));
    members.push(member("Description", text_json(description)));
    assert(entry_views(members@) =~= seq![
        ("Name"@, JsonView::Str(name@)),
        ("Type"@, JsonView::Str(kind@)),
        ("Description"@, JsonView::Str(description@)),
    ]);
    Json::Object(members)
}

/// The configuration fields.
pub open spec fn config_fields() -> Seq<JsonView> {
    seq![
        field_of("enabled"@, "boolean"@, "Master switch."@),
        field_of("endpoint"@, "string"@, "Interactions API endpoint URL."@),
        field_of("store"@, "boolean"@, "Store interactions server-side for chaining."@),
        field_of("agents"@, "array"@, "Model names treated as agents (use `agent` field)."@),
        field_of(
            "default_environment"@,
            "string"@,
            "Default environment string for agents that require one."@,
        ),
        field_of(
            "route_all_models"@,
            "boolean"@,
            "Claim Gemini chat-model requests too; when false only agent-named models route here."@,
        ),
    ]
}

fn build_config_fields() -> (r: Json)
    ensures
        r@ == JsonView::Array(config_fields()),
{
    let mut fields: Vec<Json> = Vec::new();
    fields.push(build_field("enabled", "boolean", "Master switch."));
    fields.push(build_field("endpoint", "string", "Interactions API endpoint URL."));
    fields.push(build_field("store", "boolean", "Store interactions server-side for chaining."));
    fields.push(
        build_field("agents", "array", "Model names treated as agents (use `agent` field)."),
    );
    fields.push(
        build_field(
            "default_environment",
            "string",
            "Default environment string for agents that require one.",
        ),
    );
    fields.push(
        build_field(
            "route_all_models",
            "boolean",
            "Claim Gemini chat-model requests too; when false only agent-named models route here.",
        ),
    );
    assert(array_views(fields@) =~= config_fields());
    Json::Array(fields)
}

/// Who the plugin is.
pub open spec fn metadata() -> JsonView {
    object_of(
        seq![
            ("Name"@, JsonView::Str("cpa-interactions-provider"@)),
            ("Version"@, JsonView::Str("0.1.0"@)),
            ("Author"@, JsonView::Str("AI-Trash"@)),
            (
                "GitHubRepository"@,
                JsonView::Str("https://github.com/AI-Trash/cpa-interactions-provider"@),
            ),
            ("ConfigFields"@, JsonView::Array(config_fields())),
        ],
    )
}

fn build_metadata() -> (r: Json)
    ensures
        r@ == metadata(),
{
    let mut members: Vec<(String, Json)> = Vec::new();
    members.push(member("Name", text_json("cpa-interactions-provider")));
    members.push(member("Version", text_json("0.1.0")));
    members.push(member("Author", text_json("AI-Trash")));
    members.push(
        member(
            "GitHubRepository",
            text_json("https://github.com/AI-Trash/cpa-interactions-provider"),
        ),
    );
    members.push(member("ConfigFields", build_config_fields()));
    assert(entry_views(members@) =~= seq![
        ("Name"@, JsonView::Str("cpa-interactions-provider"@)),
        ("Version"@, JsonView::Str("0.1.0"@)),
        ("Author"@, JsonView::Str("AI-Trash"@)),
        (
            "GitHubRepository"@,
            JsonView::Str("https://github.com/AI-Trash/cpa-interactions-provider"@),
        ),
        ("ConfigFields"@, JsonView::Array(config_fields())),
    ]);
    Json::Object(members)
}

/// What the plugin can do.
pub open spec fn capabilities() -> JsonView {
    object_of(
        seq![
            ("model_router"@, JsonView::Bool(true)),
            ("executor"@, JsonView::Bool(true)),
            ("executor_model_scope"@, JsonView::Str("both"@)),
            ("executor_input_formats"@, text_array_of("chat-completions"@)),
            ("executor_output_formats"@, text_array_of("chat-completions"@)),
        ],
    )
}

fn build_capabilities() -> (r: Json)
    ensures
        r@ == capabilities(),
{
    let mut members: Vec<(String, Json)> = Vec::new();
    members.push(member("model_router", Json::Bool(true)));
    members.push(member("executor", Json::Bool(true)));
    members.push(member("executor_model_scope", text_json("both")));
    members.push(member("executor_input_formats", array_of_one(text_json("chat-completions"))));
    members.push(member("executor_output_formats", array_of_one(text_json("chat-completions"))));
    assert(entry_views(members@) =~= seq![
        ("model_router"@, JsonView::Bool(true)),
        ("executor"@, JsonView::Bool(true)),
        ("executor_model_scope"@, JsonView::Str("both"@)),
        ("executor_input_formats"@, text_array_of("chat-completions"@)),
        ("executor_output_formats"@, text_array_of("chat-completions"@)),
    ]);
    Json::Object(members)
}

/// The registration document.
pub open spec fn registration() -> JsonView {
    object_of(
        seq![
            ("schema_version"@, JsonView::Int(SCHEMA_VERSION as i64)),
            ("metadata"@, metadata()),
            ("capabilities"@, capabilities()),
        ],
    )
}

/// Builds the registration document.
pub fn build_registration() -> (r: Json)
    ensures
        r@ == registration(),
{
    let mut members: Vec<(String, Json)> = Vec::new();
    members.push(member("schema_version", Json::Int(SCHEMA_VERSION as i64)));
    members.push(member("metadata", build_metadata()));
    members.push(member("capabilities", build_capabilities()));
    assert(entry_views(members@) =~= seq![
        ("schema_version"@, JsonView::Int(SCHEMA_VERSION as i64)),
        ("metadata"@, metadata()),
        ("capabilities"@, capabilities()),
    ]);
    Json::Object(members)
}

/// The registration document is a plain one.
proof fn lemma_plain_registration()
    ensures
        is_plain(registration(), 127),
{
    let fields = JsonView::Array(config_fields());
    assert forall|i: int| 0 <= i < fields->Array_0.len() implies is_plain(
        #[trigger] fields->Array_0[i],
        1,
    ) by {
        lemma_plain_field("enabled"@, "boolean"@, "Master switch."@);
        lemma_plain_field("endpoint"@, "string"@, "Interactions API endpoint URL."@);
        lemma_plain_field(
            "store"@,
            "boolean"@,
            "Store interactions server-side for chaining."@,
        );
        lemma_plain_field(
            "agents"@,
            "array"@,
            "Model names treated as agents (use `agent` field)."@,
        );
        lemma_plain_field(
            "default_environment"@,
            "string"@,
            "Default environment string for agents that require one."@,
        );
        lemma_plain_field(
            "route_all_models"@,
            "boolean"@,
            "Claim Gemini chat-model requests too; when false only agent-named models route here."@,
        );
    }
    assert(is_plain(fields, 2));
    let identity = seq![
        ("Name"@, JsonView::Str("cpa-interactions-provider"@)),
        ("Version"@, JsonView::Str("0.1.0"@)),
        ("Author"@, JsonView::Str("AI-Trash"@)),
        (
            "GitHubRepository"@,
            JsonView::Str("https://github.com/AI-Trash/cpa-interactions-provider"@),
        ),
        ("ConfigFields"@, fields),
    ];
    lemma_plain_object(identity, 2);
    let formats = text_array_of("chat-completions"@);
    assert forall|i: int| 0 <= i < formats->Array_0.len() implies is_plain(
        #[trigger] formats->Array_0[i],
        1,
    ) by {
        assert(formats->Array_0[i] is Str);
    }
    assert(is_plain(formats, 2));
    let abilities = seq![
        ("model_router"@, JsonView::Bool(true)),
        ("executor"@, JsonView::Bool(true)),
        ("executor_model_scope"@, JsonView::Str("both"@)),
        ("executor_input_formats"@, formats),
        ("executor_output_formats"@, formats),
    ];
    lemma_plain_object(abilities, 2);
    let members = seq![
        ("schema_version"@, JsonView::Int(SCHEMA_VERSION as i64)),
        ("metadata"@, metadata()),
        ("capabilities"@, capabilities()),
    ];
    lemma_plain_object(members, 3);
    lemma_plain_more(object_of(members), 4, 127);
}

proof fn lemma_plain_field(name: Seq<char>, kind: Seq<char>, description: Seq<char>)
    ensures
        is_plain(field_of(name, kind, description), 1),
{
    lemma_plain_object(
        seq![
            ("Name"@, JsonView::Str(name)),
            ("Type"@, JsonView::Str(kind)),
            ("Description"@, JsonView::Str(description)),
        ],
        0,
    );
}

/// The registration document as JSON text, out of which the host reads it back.
pub fn registration_result() -> (r: String)
    ensures
        r@ == json_text(registration()),
        json_parse(encode_utf8(r@)) == Ok::<JsonView, Seq<char>>(registration()),
{
    proof {
        lemma_plain_registration();
    }
    print_json(&build_registration())
}

} // verus!
