//! Decision logic, text handling and wire formats of a cloud speech-to-text client.
pub mod claude_auth;
pub mod claude_stt;
pub mod cloud_stt;
pub mod codex_auth;
pub mod codex_stt;
pub mod json;
pub mod text;
