//! Core logic of a push-to-talk voice assistant: configuration, the
//! recording session, PCM sample framing, the chat-completion exchange and
//! the speech-synthesis plan, each with a machine-checked contract.

pub mod audio;
pub mod chat;
pub mod config;
pub mod speech;
pub mod state;
pub mod text;

pub use config::{AppConfig, LlmConfig, TtsConfig};
pub use state::{AppState, ChatMessage};
