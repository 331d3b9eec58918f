//! The pieces of a tool-calling agent loop, with contracts that say what each one does.
//!
//! - [`chat`]: messages, requests, responses, and the client of an OpenAI-compatible endpoint
//! - [`wire`]: the JSON that goes over the wire
//! - [`tools`]: tools for files, the shell, the web and arithmetic, and a registry that can
//!   be changed while the agent runs
//! - [`calc`]: the arithmetic expressions that the calculator tool understands
//! - [`executor`]: running tool calls one after the other or side by side
//! - [`hooks`]: callbacks for the six events of a run
//! - [`agent`]: the loop that ties them together, and what holds of every run
//! - [`trace`]: the record of a run
//! - [`json`], [`text`]: JSON values and strings
//!
//! The library reaches nothing outside itself. What reads files, starts processes, talks to
//! servers or computes with floating-point numbers is handed in as functions, and the
//! contracts say what the library does with whatever those give back.
pub mod agent;
pub mod calc;
pub mod chat;
pub mod executor;
pub mod hooks;
pub mod json;
pub mod text;
pub mod tools;
pub mod trace;
pub mod wire;

pub use agent::{Agent, AgentConfig, AgentOutcome};
pub use chat::{ChatClient, ChatMessage, ChatRequest, ChatTool, Role, ToolCall};
pub use executor::execute_many;
pub use hooks::{HookEvent, HookPayload, Hooks};
pub use tools::{Tool, ToolRegistry, ToolResult};
