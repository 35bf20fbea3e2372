//! ulmcp: a native tool protocol for agentic AI, compatible with MCP
//! (Model Context Protocol).
//!
//! Core concepts:
//!   Tool       - a callable function with typed parameters and results
//!   Resource   - readable data with URI addressing
//!   Prompt     - reusable prompt templates
//!   Context    - token budget tracking and context window management
//!   Registry   - discover and manage tools and resources
//!
//! The server answers decoded JSON-RPC requests; the client builds requests
//! and interprets decoded responses.

pub mod client;
pub mod context;
pub mod map;
pub mod mcp;
pub mod prompt;
pub mod registry;
pub mod resource;
pub mod server;
pub mod text;
pub mod tool;
pub mod transport;

pub use context::ContextTracker;
pub use map::StrMap;
pub use prompt::{PromptDef, PromptParam};
pub use registry::Registry;
pub use resource::{ChangeType, ResourceChange, ResourceContent, ResourceData, ResourceDef};
pub use tool::{
    validate_call, ParamType, ToolCall, ToolDef, ToolParam, ToolResult, ToolStatus, ToolValue,
};
