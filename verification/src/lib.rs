//! The AI credentials, providers and harnesses of the Warp client: which keys and tokens the user
//! has, which endpoints they stand for and what of them a request carries; how a ChatGPT
//! subscription is connected and kept; how a request goes to a provider directly and its answer
//! comes back; and which agent harnesses there are.
//!
//! Everything here computes on plain values. Network, storage and timers are left to the caller,
//! who performs what a function asks for and hands back what came of it.

pub mod availability;
pub mod chat;
pub mod chatgpt;
pub mod credentials;
pub mod direct;
pub mod endpoint;
pub mod events;
pub mod harness;
pub mod ids;
pub mod json;
pub mod keys;
pub mod lists;
pub mod manager;
pub mod models;
pub mod oauth;
pub mod order;
pub mod request;
pub mod stream;
pub mod text;
pub mod time;
pub mod tokens;
pub mod tools;
pub mod unicode;
