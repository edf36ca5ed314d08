//! What holds of the plugin as a whole, beyond the contract of any one function.
pub mod configuration;
pub mod conversation;
pub mod documents;
pub mod envelopes;
pub mod keys;
pub mod messages;
pub mod methods;
pub mod reader;
pub mod replies;
pub mod requests;
pub mod texts;
