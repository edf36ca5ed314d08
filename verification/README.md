# cpa-interactions-provider

A CLIProxyAPI plugin that offers Google's Gemini Interactions API behind an OpenAI Chat
Completions interface, with its logic verified by Verus.

The plugin remembers, under a digest of a conversation, the interaction that the conversation
has reached; the first reply to a turn writes the binding, and later ones leave it. A client that resends the whole conversation with each request, as OpenAI clients
do, thereby continues one interaction on the server.

- `src/` is the library. Every function states what it returns; `src/laws/` states what holds
  of several of them together, above all that the turn after a turn finds the session that the
  first one left.
- `app/` is the C interface: the entry point, the raw buffers and the call of the host.
- `tests/` runs the library on concrete values.

## What is taken on trust

`src/codec.rs`, and a few lines of `src/json.rs` and `src/text.rs`, hold the calls of serde_json,
base64, blake3 and the standard library whose contracts are stated and not proved. Each says
what it claims. JSON text, base64 text and digests are named there, not spelled out; all else
is stated over those names.

## Execution in two parts

The host makes the HTTP call, so `executor::execute` ends in a `PendingCall` and
`answer::finish_execute` starts from the host's reply. `plugin::plugin_call` and
`plugin::resume_call` are the same two parts for any method.

## Configuration

The configuration is the text of a small YAML subset: `key: value` lines, comments, quotes, a
list of agents in brackets or as a block. Blank lines, unknown fields and lines without a colon
are passed over; of two lines that set the same field the later one counts. Listed agents
override the default ones, those of a block behind those in brackets. The default environment is for the Antigravity agents, which need
one.

| Field | Default |
| ----- | ------- |
| `enabled` | `true` |
| `endpoint` | `https://generativelanguage.googleapis.com/v1beta/interactions` |
| `store` | `true` |
| `agents` | `antigravity-preview-05-2026`, `deep-research-preview-04-2026`, `deep-research-max-preview-04-2026` |
| `default_environment` | `remote` |
| `route_all_models` | `true` |
