//! A CLIProxyAPI plugin that offers Google's Gemini Interactions API behind an OpenAI Chat
//! Completions interface.
//!
//! The host hands the plugin JSON envelopes, one method call each (`plugin`): it registers and
//! configures it (`registration`, `config`), asks it which models it claims (`router`), and has
//! it execute chat requests (`executor`, `answer`). A chat request becomes a call of the
//! Interactions API, which the host makes; so its execution comes in two parts, with a
//! `PendingCall` between them. What one turn leaves behind is kept under a digest of the
//! conversation (`session`), so that the next turn can continue the interaction.
//!
//! `json` holds the documents that all of this is about, `content` what is read out of them,
//! `codec` the calls of serde_json, base64 and blake3, `envelope` the form of the answers,
//! `text` what is needed of strings. `laws` states what holds of the whole.
pub mod answer;
pub mod codec;
pub mod config;
pub mod content;
pub mod envelope;
pub mod executor;
pub mod json;
pub mod laws;
pub mod plugin;
pub mod registration;
pub mod router;
pub mod session;
pub mod text;
