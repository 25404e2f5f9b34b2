//! The quotas of several model providers on one board: what each provider is
//! asked, what its answers say, and how that is shown.
pub mod board;
pub mod codex;
pub mod decimal;
pub mod deepseek;
pub mod glm;
pub mod json;
pub mod kimi_session;
pub mod kimi_usage;
pub mod quota;
pub mod serde_value;
pub mod text;
