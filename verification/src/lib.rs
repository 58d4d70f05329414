//! Verified core of the Orchid agent runner: configuration validation,
//! session bookkeeping, provider stream decoding and tool edit planning.
pub mod text;
pub mod json;
pub mod paths;
pub mod config;
pub mod model;
pub mod provider;
pub mod tools;
pub mod agent;
pub mod cli;
pub mod store;
pub mod session;
pub mod convo;
pub mod log;
pub mod hooks;
