//! The rules of an OpenAI-compatible proxy: how chat requests become provider requests, how
//! provider streams become OpenAI replies, and how accounts, tokens and models are kept.
pub mod clock;
pub mod config;
pub mod constant;
pub mod http;
pub mod ids;
pub mod json;
pub mod provider;
pub mod route;
pub mod state;
pub mod text;
pub mod types;
