//! MCP (Model Context Protocol) message types and the conversions between
//! them and the native types.

pub mod adapter;
pub mod types;
