//! Verified core of a language server that forwards editor requests to a
//! chat-completion model and relays the model's answers.

pub mod text;
pub mod extract;
pub mod secrets;
pub mod paragraphs;
pub mod prompt_config;
pub mod decimal;
pub mod json;
pub mod document;
pub mod gpt;
pub mod invocation;
pub mod server;
