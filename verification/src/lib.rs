//! The decision logic of an agent runtime server: provider registration,
//! application configuration, process supervision rules, tool routing,
//! HTTP error mapping and event replay, each with a verified contract.

pub mod app;
pub mod cli;
pub mod error;
pub mod http;
pub mod process;
pub mod provider;
pub mod provider_registry;
pub mod providers;
pub mod store;
pub mod text;
pub mod tool_gateway;
pub mod tools;
